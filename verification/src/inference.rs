//! Decisions around running a model: how inputs are split into batches, which
//! kind of input a model runs on, where its weights come from, which
//! execution providers a session is given, and how token rows are laid out.
use vstd::prelude::*;
use crate::errors::AIProxyError;
use crate::models::SupportedModels;

verus! {

/// `r` splits `[0, total)` into consecutive batches of `batch_size`, in order;
/// only the last may be shorter, and none is empty.
pub open spec fn is_batching(r: Seq<(usize, usize)>, total: nat, batch_size: nat) -> bool {
    &&& (r.len() == 0 <==> total == 0)
    &&& r.len() > 0 ==> r[0].0 == 0 && r.last().1 == total
    &&& forall|k: int| 0 <= k < r.len() - 1 ==> #[trigger] r[k].1 == r[k + 1].0
    &&& forall|k: int| 0 <= k < r.len() - 1 ==> #[trigger] r[k].1 - r[k].0 == batch_size
    &&& forall|k: int|
        0 <= k < r.len() ==> 0 < #[trigger] r[k].1 - r[k].0 && r[k].1 - r[k].0 <= batch_size
}

/// The batches that `total` items are processed in, as index ranges
/// `[start, end)`.
pub fn batch_ranges(total: usize, batch_size: usize) -> (res: Vec<(usize, usize)>)
    requires
        batch_size > 0,
    ensures
        is_batching(res@, total as nat, batch_size as nat),
{
    let mut out: Vec<(usize, usize)> = Vec::new();
    let mut start: usize = 0;
    while start < total
        invariant
            batch_size > 0,
            start <= total,
            out@.len() == 0 <==> start == 0,
            out@.len() > 0 ==> out@[0].0 == 0 && out@.last().1 == start,
            forall|k: int| 0 <= k < out@.len() - 1 ==> #[trigger] out@[k].1 == out@[k + 1].0,
            forall|k: int| 0 <= k < out@.len() - 1 ==> #[trigger] out@[k].1 - out@[k].0 == batch_size,
            forall|k: int|
                0 <= k < out@.len() ==> 0 < #[trigger] out@[k].1 - out@[k].0 && out@[k].1 - out@[k].0
                    <= batch_size,
            out@.len() > 0 && start < total ==> out@.last().1 - out@.last().0 == batch_size,
        decreases total - start,
    {
        let end = if total - start > batch_size {
            start + batch_size
        } else {
            total
        };
        let ghost before = out@;
        out.push((start, end));
        proof {
            assert forall|k: int| 0 <= k < out@.len() - 1 implies #[trigger] out@[k].1 == out@[k
                + 1].0 by {
                if k < before.len() - 1 {
                    assert(out@[k] == before[k] && out@[k + 1] == before[k + 1]);
                }
            }
            assert forall|k: int| 0 <= k < out@.len() - 1 implies #[trigger] out@[k].1 - out@[k].0
                == batch_size by {
                assert(out@[k] == before[k]);
            }
        }
        start = end;
    }
    out
}

/// Each item of `[0, total)` lies in exactly one batch of a batching.
pub proof fn law_batches_cover_each_item_once(
    r: Seq<(usize, usize)>,
    total: nat,
    batch_size: nat,
    i: nat,
)
    requires
        is_batching(r, total, batch_size),
        i < total,
    ensures
        exists|k: int| 0 <= k < r.len() && (#[trigger] r[k]).0 <= i < r[k].1,
        forall|k: int, l: int|
            0 <= k < r.len() && 0 <= l < r.len() && (#[trigger] r[k]).0 <= i < r[k].1 && (
            #[trigger] r[l]).0 <= i < r[l].1 ==> k == l,
{
    lemma_batches_ordered(r, total, batch_size);
    let k = choose_batch(r, total, batch_size, i, (r.len() - 1) as int);
}

/// The batches of a batching start and end in increasing order.
proof fn lemma_batches_ordered(r: Seq<(usize, usize)>, total: nat, batch_size: nat)
    requires
        is_batching(r, total, batch_size),
    ensures
        forall|k: int, l: int| 0 <= k < l < r.len() ==> (#[trigger] r[k]).1 <= (#[trigger] r[l]).0,
{
    assert forall|k: int, l: int| 0 <= k < l < r.len() implies (#[trigger] r[k]).1 <= (
    #[trigger] r[l]).0 by {
        lemma_batch_gap(r, total, batch_size, k, l);
    }
}

proof fn lemma_batch_gap(r: Seq<(usize, usize)>, total: nat, batch_size: nat, k: int, l: int)
    requires
        is_batching(r, total, batch_size),
        0 <= k < l < r.len(),
    ensures
        r[k].1 <= r[l].0,
    decreases l - k,
{
    assert(r[l - 1].1 == r[l].0);
    if k < l - 1 {
        lemma_batch_gap(r, total, batch_size, k, l - 1);
        assert(r[l - 1].0 < r[l - 1].1);
    }
}

/// A batch among the first `upto + 1` that holds `i`, when `i` is below the end of batch `upto`.
proof fn choose_batch(r: Seq<(usize, usize)>, total: nat, batch_size: nat, i: nat, upto: int) -> (k: int)
    requires
        is_batching(r, total, batch_size),
        0 <= upto < r.len(),
        i < r[upto].1,
    ensures
        0 <= k <= upto,
        r[k].0 <= i < r[k].1,
    decreases upto,
{
    if i >= r[upto].0 {
        upto
    } else {
        assert(upto > 0);
        assert(r[upto - 1].1 == r[upto].0);
        choose_batch(r, total, batch_size, i, upto - 1)
    }
}

/// The kind of input a session of a model takes.
#[derive(Clone, Copy, Debug, PartialEq, Eq, Structural)]
pub enum ORTModality {
    Image,
    Text,
    Audio,
}

/// The kind of input handed to a model.
#[derive(Clone, Copy, Debug, PartialEq, Eq, Structural)]
pub enum InputKind {
    Images,
    Texts,
    Audios,
}

/// The name a modality is shown under.
pub open spec fn modality_name(m: ORTModality) -> Seq<char> {
    match m {
        ORTModality::Image => "Image"@,
        ORTModality::Text => "Text"@,
        ORTModality::Audio => "Audio"@,
    }
}

/// Text inference runs on a text model only; any other model is
/// `AIModelNotSupported`, naming the model.
pub fn check_text_model(modality: ORTModality, model: SupportedModels) -> (res: Result<(), AIProxyError>)
    ensures
        modality == ORTModality::Text ==> res is Ok,
        modality != ORTModality::Text ==> (res matches Err(AIProxyError::AIModelNotSupported { model_name: n })
            && n@ == crate::models::display_name(model)),
{
    match modality {
        ORTModality::Text => Ok(()),
        _ => Err(AIProxyError::AIModelNotSupported { model_name: model.display_string() }),
    }
}

/// A model runs on the input of its own modality only; anything else is
/// `AIModelNotSupported`, naming the modality.
pub fn check_modality(modality: ORTModality, input: InputKind) -> (res: Result<(), AIProxyError>)
    ensures
        match (modality, input) {
            (ORTModality::Image, InputKind::Images) | (ORTModality::Text, InputKind::Texts) | (
                ORTModality::Audio,
                InputKind::Audios,
            ) => res is Ok,
            _ => res matches Err(AIProxyError::AIModelNotSupported { model_name: n }) && n@
                == modality_name(modality) + " model"@,
        },
{
    match (modality, input) {
        (ORTModality::Image, InputKind::Images) | (ORTModality::Text, InputKind::Texts) | (
            ORTModality::Audio,
            InputKind::Audios,
        ) => Ok(()),
        _ => {
            let name = match modality {
                ORTModality::Image => "Image",
                ORTModality::Text => "Text",
                ORTModality::Audio => "Audio",
            };
            Err(AIProxyError::AIModelNotSupported { model_name: crate::text::concat_str(name, " model") })
        },
    }
}

/// Where a single-stage model's weights are found and how it is run.
#[derive(Debug)]
pub struct ModelConfig {
    pub modality: ORTModality,
    pub repo_name: String,
    pub weights_file: String,
    pub batch_size: usize,
}

/// The repository, weights file, modality and batch size of a model.
pub open spec fn model_config_of(m: SupportedModels) -> (ORTModality, Seq<char>, Seq<char>, nat) {
    match m {
        SupportedModels::Resnet50 => (ORTModality::Image, "Qdrant/resnet50-onnx"@, "model.onnx"@, 16),
        SupportedModels::ClipVitB32Image => (
            ORTModality::Image,
            "Qdrant/clip-ViT-B-32-vision"@,
            "model.onnx"@,
            16,
        ),
        SupportedModels::ClipVitB32Text => (
            ORTModality::Text,
            "Qdrant/clip-ViT-B-32-text"@,
            "model.onnx"@,
            128,
        ),
        SupportedModels::AllMiniLML6V2 => (
            ORTModality::Text,
            "Qdrant/all-MiniLM-L6-v2-onnx"@,
            "model.onnx"@,
            128,
        ),
        SupportedModels::AllMiniLML12V2 => (
            ORTModality::Text,
            "Xenova/all-MiniLM-L12-v2"@,
            "onnx/model.onnx"@,
            128,
        ),
        SupportedModels::BGEBaseEnV15 => (
            ORTModality::Text,
            "Xenova/bge-base-en-v1.5"@,
            "onnx/model.onnx"@,
            128,
        ),
        SupportedModels::BGELargeEnV15 => (
            ORTModality::Text,
            "Xenova/bge-large-en-v1.5"@,
            "onnx/model.onnx"@,
            128,
        ),
    }
}

impl ModelConfig {
    /// The configuration of a model of the catalogue.
    pub fn from_supported_model(model: &SupportedModels) -> (res: ModelConfig)
        ensures
            (res.modality, res.repo_name@, res.weights_file@, res.batch_size as nat)
                == model_config_of(*model),
    {
        let (modality, repo, weights, batch_size) = match model {
            SupportedModels::Resnet50 => (ORTModality::Image, "Qdrant/resnet50-onnx", "model.onnx", 16),
            SupportedModels::ClipVitB32Image => (
                ORTModality::Image,
                "Qdrant/clip-ViT-B-32-vision",
                "model.onnx",
                16,
            ),
            SupportedModels::ClipVitB32Text => (
                ORTModality::Text,
                "Qdrant/clip-ViT-B-32-text",
                "model.onnx",
                128,
            ),
            SupportedModels::AllMiniLML6V2 => (
                ORTModality::Text,
                "Qdrant/all-MiniLM-L6-v2-onnx",
                "model.onnx",
                128,
            ),
            SupportedModels::AllMiniLML12V2 => (
                ORTModality::Text,
                "Xenova/all-MiniLM-L12-v2",
                "onnx/model.onnx",
                128,
            ),
            SupportedModels::BGEBaseEnV15 => (
                ORTModality::Text,
                "Xenova/bge-base-en-v1.5",
                "onnx/model.onnx",
                128,
            ),
            SupportedModels::BGELargeEnV15 => (
                ORTModality::Text,
                "Xenova/bge-large-en-v1.5",
                "onnx/model.onnx",
                128,
            ),
        };
        ModelConfig {
            modality,
            repo_name: String::from_str(repo),
            weights_file: String::from_str(weights),
            batch_size,
        }
    }
}

/// `part` appended to the path `base` as `PathBuf::push` does for a relative
/// part: with a `/` between them unless `base` is empty or already ends in one.
pub open spec fn joined_path(base: Seq<char>, part: Seq<char>) -> Seq<char> {
    if base.len() == 0 {
        part
    } else if base.last() == '/' {
        base + part
    } else {
        base + "/"@ + part
    }
}

/// The path `part` below `base`.
pub fn join_path(base: &str, part: &str) -> (res: String)
    ensures
        res@ == joined_path(base@, part@),
{
    proof {
        reveal_strlit("/");
    }
    let n = base.unicode_len();
    if n == 0 {
        String::from_str(part)
    } else if base.get_char(n - 1) == '/' {
        crate::text::concat_str(base, part)
    } else {
        let with_sep = crate::text::concat_str(base, "/");
        crate::text::concat_str(with_sep.as_str(), part)
    }
}

/// The directory below the model cache where model repositories are kept.
pub fn ort_full_cache_path(cache_location: &str) -> (res: String)
    ensures
        res@ == joined_path(cache_location@, "huggingface"@),
{
    join_path(cache_location, "huggingface")
}

/// An execution provider a client may ask for.
#[derive(Clone, Copy, Debug, PartialEq, Eq, Structural)]
pub enum AIExecutionProvider {
    TensorRt,
    Cuda,
    DirectMl,
    CoreMl,
}

/// An execution provider a session can be built with; the CPU is the default.
#[derive(Clone, Copy, Debug, PartialEq, Eq, Structural)]
pub enum InnerAIExecutionProvider {
    TensorRT,
    CUDA,
    DirectML,
    CoreML,
    CPU,
}

impl InnerAIExecutionProvider {
    /// The provider for a client's choice.
    pub fn from_requested(entry: AIExecutionProvider) -> (res: InnerAIExecutionProvider)
        ensures
            res == match entry {
                AIExecutionProvider::TensorRt => InnerAIExecutionProvider::TensorRT,
                AIExecutionProvider::Cuda => InnerAIExecutionProvider::CUDA,
                AIExecutionProvider::DirectMl => InnerAIExecutionProvider::DirectML,
                AIExecutionProvider::CoreMl => InnerAIExecutionProvider::CoreML,
            },
    {
        match entry {
            AIExecutionProvider::TensorRt => InnerAIExecutionProvider::TensorRT,
            AIExecutionProvider::Cuda => InnerAIExecutionProvider::CUDA,
            AIExecutionProvider::DirectMl => InnerAIExecutionProvider::DirectML,
            AIExecutionProvider::CoreMl => InnerAIExecutionProvider::CoreML,
        }
    }

    /// The provider a request runs on: the one asked for, else the CPU.
    pub fn for_request(requested: Option<AIExecutionProvider>) -> (res: InnerAIExecutionProvider)
        ensures
            match requested {
                Some(e) => res == Self::spec_from_requested(e),
                None => res == InnerAIExecutionProvider::CPU,
            },
    {
        match requested {
            Some(e) => Self::from_requested(e),
            None => InnerAIExecutionProvider::CPU,
        }
    }

    pub open spec fn spec_from_requested(entry: AIExecutionProvider) -> InnerAIExecutionProvider {
        match entry {
            AIExecutionProvider::TensorRt => InnerAIExecutionProvider::TensorRT,
            AIExecutionProvider::Cuda => InnerAIExecutionProvider::CUDA,
            AIExecutionProvider::DirectMl => InnerAIExecutionProvider::DirectML,
            AIExecutionProvider::CoreMl => InnerAIExecutionProvider::CoreML,
        }
    }
}

/// The execution providers registered on a session being built, in the order
/// they were registered. The runtime tries them in that order and falls back
/// to the CPU.
#[derive(Debug)]
pub struct ProviderRegistry {
    pub registered: Vec<InnerAIExecutionProvider>,
}

/// Registers `provider` on the session being built. The CPU needs no
/// registration: it is always there. Any other provider is registered with
/// the ONNX runtime, whose answer is `runtime_answer`: when the runtime
/// refuses, with its error text, the registration fails with an `ORTError`
/// carrying that text and nothing is registered. The answer is not consulted
/// for the CPU.
pub fn register_provider(
    provider: InnerAIExecutionProvider,
    builder: &mut ProviderRegistry,
    runtime_answer: Result<(), String>,
) -> (res: Result<(), AIProxyError>)
    ensures
        provider == InnerAIExecutionProvider::CPU ==> res is Ok && final(builder).registered@
            == old(builder).registered@,
        provider != InnerAIExecutionProvider::CPU ==> match runtime_answer {
            Ok(()) => res is Ok && final(builder).registered@ == old(builder).registered@.push(
                provider,
            ),
            Err(m) => (res matches Err(AIProxyError::ORTError(t)) && t@ == m@)
                && final(builder).registered@ == old(builder).registered@,
        },
{
    match provider {
        InnerAIExecutionProvider::CPU => Ok(()),
        _ => match runtime_answer {
            Ok(()) => {
                builder.registered.push(provider);
                Ok(())
            },
            Err(m) => Err(AIProxyError::ORTError(m)),
        },
    }
}

/// The name of the image input of an image model's graph.
pub fn image_input_name(model: SupportedModels) -> (res: Result<String, AIProxyError>)
    ensures
        match model {
            SupportedModels::Resnet50 => res matches Ok(s) && s@ == "input"@,
            SupportedModels::ClipVitB32Image => res matches Ok(s) && s@ == "pixel_values"@,
            _ => res matches Err(AIProxyError::AIModelNotSupported { model_name: n }) && n@
                == crate::models::display_name(model),
        },
{
    match model {
        SupportedModels::Resnet50 => Ok(String::from_str("input")),
        SupportedModels::ClipVitB32Image => Ok(String::from_str("pixel_values")),
        _ => Err(AIProxyError::AIModelNotSupported { model_name: model.display_string() }),
    }
}

/// Whether an image model's embeddings are scaled to unit length.
pub open spec fn normalizes_image_embeddings(model: SupportedModels) -> bool {
    model == SupportedModels::Resnet50
}

/// Whether a text model's pooled embeddings are scaled to unit length (the
/// sentence-transformer models); models with a projection head always are.
pub open spec fn normalizes_pooled_text(model: SupportedModels) -> bool {
    match model {
        SupportedModels::AllMiniLML6V2 | SupportedModels::AllMiniLML12V2
        | SupportedModels::BGEBaseEnV15 | SupportedModels::BGELargeEnV15 => true,
        _ => false,
    }
}

/// The pooled embeddings of every text model are scaled to unit length,
/// except those of CLIP's text tower, whose projection head gives them; no
/// image model pools text.
pub proof fn law_pooled_text_normalization(model: SupportedModels)
    ensures
        normalizes_pooled_text(model) <==> (crate::models::model_type_of(model) is Text && model
            != SupportedModels::ClipVitB32Text),
        normalizes_pooled_text(SupportedModels::AllMiniLML6V2),
        normalizes_pooled_text(SupportedModels::AllMiniLML12V2),
        normalizes_pooled_text(SupportedModels::BGEBaseEnV15),
        normalizes_pooled_text(SupportedModels::BGELargeEnV15),
{
}

/// Whether an image model's embeddings are scaled to unit length.
pub fn image_embeddings_normalized(model: SupportedModels) -> (res: bool)
    ensures
        res == normalizes_image_embeddings(model),
{
    match model {
        SupportedModels::Resnet50 => true,
        _ => false,
    }
}

/// Whether a text model's pooled embeddings are scaled to unit length.
pub fn pooled_text_normalized(model: SupportedModels) -> (res: bool)
    ensures
        res == normalizes_pooled_text(model),
        res <==> (crate::models::model_type_of(model) is Text && model != SupportedModels::ClipVitB32Text),
{
    match model {
        SupportedModels::AllMiniLML6V2 | SupportedModels::AllMiniLML12V2
        | SupportedModels::BGEBaseEnV15 | SupportedModels::BGELargeEnV15 => true,
        _ => false,
    }
}

/// The rows of a batch laid end to end, as the graph's 64-bit integers.
pub open spec fn flattened(rows: Seq<Vec<u32>>) -> Seq<i64>
    decreases rows.len(),
{
    if rows.len() == 0 {
        Seq::empty()
    } else {
        flattened(rows.drop_last()) + rows.last()@.map_values(|x: u32| x as i64)
    }
}

/// The token rows of a batch as one `(rows, width)` matrix in row order, where
/// the width is that of the first row; none when the rows do not all have
/// that width, so the matrix cannot be formed.
pub fn token_matrix(rows: &Vec<Vec<u32>>) -> (res: Option<Vec<i64>>)
    requires
        rows@.len() > 0,
    ensures
        (forall|i: int| 0 <= i < rows@.len() ==> (#[trigger] rows@[i])@.len() == rows@[0]@.len())
            ==> (res matches Some(v) && v@ == flattened(rows@)),
        !(forall|i: int| 0 <= i < rows@.len() ==> (#[trigger] rows@[i])@.len() == rows@[0]@.len())
            ==> res is None,
{
    let width = rows[0].len();
    let mut out: Vec<i64> = Vec::new();
    let mut i: usize = 0;
    while i < rows.len()
        invariant
            0 <= i <= rows@.len(),
            width == rows@[0]@.len(),
            forall|j: int| 0 <= j < i ==> (#[trigger] rows@[j])@.len() == width,
            out@ == flattened(rows@.subrange(0, i as int)),
        decreases rows@.len() - i,
    {
        let row = &rows[i];
        if row.len() != width {
            return None;
        }
        let ghost before = out@;
        let mut j: usize = 0;
        while j < row.len()
            invariant
                0 <= j <= row@.len(),
                out@ == before + row@.subrange(0, j as int).map_values(|x: u32| x as i64),
            decreases row@.len() - j,
        {
            out.push(row[j] as i64);
            proof {
                assert(row@.subrange(0, j as int + 1).map_values(|x: u32| x as i64) =~= row@.subrange(
                    0,
                    j as int,
                ).map_values(|x: u32| x as i64).push(row@[j as int] as i64));
            }
            j = j + 1;
        }
        proof {
            assert(row@.subrange(0, row@.len() as int) =~= row@);
            assert(rows@.subrange(0, i as int + 1).drop_last() =~= rows@.subrange(0, i as int));
        }
        i = i + 1;
    }
    proof {
        assert(rows@.subrange(0, rows@.len() as int) =~= rows@);
    }
    Some(out)
}

} // verus!
