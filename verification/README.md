# ahnlich_ai_proxy

The core of the Ahnlich AI proxy, the service that sits in front of the
Ahnlich vector database, turns raw text and images into embeddings with a
catalogue of models, and keeps the original inputs next to their vectors.
Every function of the library carries a contract. Verus proves each of them,
except the contracts of the small wrappers that call outside crates (the
`papaya` table, image decoding with `image`, sorting with `itertools`, the home
directory with `dirs`, JSON parsing with `serde_json`): those are trusted, and their doc comments say what
they claim of the outside code.

## Layout

- `src/` — the verified library:
  - `models` — the model catalogue (input kinds, token limits, image sizes, embedding sizes);
  - `store`, `table` — the stores the proxy knows, in a concurrent `papaya` table;
  - `keyval`, `keyed` — inputs, metadata and the reserved metadata keys;
  - `operations` — what is asked of the database per request and what its replies mean;
  - `pipeline` — how each query of a client's pipeline is run and answered, in order;
  - `replication` — the replicated state machine, with per-client idempotence;
  - `manager`, `pool`, `inference` — checks and batching around running a model;
  - `processors`, `json` — pre- and postprocessing configuration read from model files:
    `json::read_config` parses a file's bytes, which `app/` reads;
  - `faces` — the detector's anchor grid, output lookup and per-image grouping;
  - `images`, `config`, `text`, `seqs`, `errors` — supporting pieces.
- `tests/` — tests of the library.
- `app/` — the command line, serde-facing copies of library types, and the
  floating-point parts of embedding and face detection.
