//! The stores the proxy knows about: for each, the model that indexes its
//! entries, the model that embeds queries, and whether it keeps the original
//! inputs. Also the checks and conversions applied to the entries on their
//! way to and from the database.
use vstd::prelude::*;
use crate::errors::AIProxyError;
use crate::keyval::{
    StoreInput, StoreName, StoreValue, MetadataValue, ValueView, reserved_meta_key,
    reserved_meta_key_string, input_type_of_value,
};
use crate::models::{
    AiModel, SupportedModels, AiStoreInputType, InputAction, embedding_size_of, model_type_of,
    input_type_of, spec_from_ai_model,
};
use crate::table::{
    StoreEntry, StoreTable, table_contents, no_stores, table_new, table_len, table_get,
    table_try_insert, table_insert, table_remove, table_clear, table_entries,
};

verus! {

/// A store as the proxy records it.
#[derive(Debug)]
pub struct AIStore {
    pub name: StoreName,
    pub query_model: AiModel,
    pub index_model: AiModel,
    pub store_original: bool,
}

/// What `list_stores` reports about a store.
#[derive(Debug)]
pub struct AiStoreInfo {
    pub name: String,
    pub query_model: AiModel,
    pub index_model: AiModel,
    pub embedding_size: u64,
    pub predicate_indices: Vec<String>,
    /// What the database reports of the store, when it was asked.
    pub db_info: Option<DbStoreInfo>,
}

/// What the database reports of a store.
#[derive(Debug)]
pub struct DbStoreInfo {
    pub name: String,
    pub predicate_indices: Vec<String>,
}

/// An entry as the database holds it: an embedding key and its metadata.
#[derive(Debug)]
pub struct DbStoreEntry<K> {
    pub key: Option<K>,
    pub value: Option<StoreValue>,
}

/// An entry as returned to clients: the original input, if kept, and the metadata.
#[derive(Debug)]
pub struct GetEntry {
    pub key: Option<StoreInput>,
    pub value: Option<StoreValue>,
}

/// What a model returns for one input: one embedding, or several.
#[derive(Debug)]
pub enum ModelResponse<K> {
    OneToOne(K),
    OneToMany(Vec<K>),
}

/// Keeps the stores that have been created, by name.
pub struct AIStoreHandler {
    stores: StoreTable,
    write_flag: bool,
    supported_models: Vec<SupportedModels>,
}

/// Why an input is refused when a store is being filled.
pub enum InputFault {
    /// The input has no value.
    Missing,
    /// The input is of this type, which is not the one the index model takes.
    TypeMismatch(AiStoreInputType),
    /// The metadata already uses the reserved key.
    Reserved,
}

/// The entry the table keeps for a store.
pub open spec fn entry_of(query_model: AiModel, index_model: AiModel, store_original: bool) -> StoreEntry {
    StoreEntry { query_model, index_model, store_original }
}

/// Both models of a store are among those the proxy supports.
pub open spec fn models_supported(supported: Seq<SupportedModels>, q: AiModel, i: AiModel) -> bool {
    supported.contains(spec_from_ai_model(q)) && supported.contains(spec_from_ai_model(i))
}

/// The two models produce embeddings of the same length.
pub open spec fn same_dimension(q: AiModel, i: AiModel) -> bool {
    embedding_size_of(spec_from_ai_model(i)) == embedding_size_of(spec_from_ai_model(q))
}

/// The input type the index model of a store takes.
pub open spec fn index_input_type(index_model: AiModel) -> AiStoreInputType {
    input_type_of(model_type_of(spec_from_ai_model(index_model)))
}

/// Why an input with this value and metadata cannot be stored, if it cannot.
pub open spec fn input_fault(
    index_model: AiModel,
    input: Option<ValueView>,
    value: Map<Seq<char>, Option<ValueView>>,
    store_original: bool,
) -> Option<InputFault> {
    match input {
        None => Some(InputFault::Missing),
        Some(v) => if input_type_of_value(v) != index_input_type(index_model) {
            Some(InputFault::TypeMismatch(input_type_of_value(v)))
        } else if store_original && value.dom().contains(reserved_meta_key()) {
            Some(InputFault::Reserved)
        } else {
            None
        },
    }
}

/// The fault of the `i`-th pair of a list of inputs.
pub open spec fn fault_at(
    index_model: AiModel,
    s: Seq<(StoreInput, StoreValue)>,
    i: int,
    store_original: bool,
) -> Option<InputFault> {
    input_fault(index_model, s[i].0@, s[i].1@, store_original)
}

/// The error an input fault is reported as.
pub open spec fn fault_error(index_model: AiModel, f: InputFault, e: AIProxyError) -> bool {
    match f {
        InputFault::Missing => e matches AIProxyError::InputNotSpecified(m) && m@
            == "Store Input Value"@,
        InputFault::TypeMismatch(t) => e == AIProxyError::StoreTypeMismatchError {
            action: InputAction::Index,
            index_model_type: index_input_type(index_model),
            storeinput_type: t,
        },
        InputFault::Reserved => e matches AIProxyError::ReservedError(k) && k@
            == reserved_meta_key(),
    }
}

/// The metadata an accepted input is stored with.
pub open spec fn prepared_value(
    input: Option<ValueView>,
    value: Map<Seq<char>, Option<ValueView>>,
    store_original: bool,
) -> Map<Seq<char>, Option<ValueView>> {
    if store_original {
        value.insert(reserved_meta_key(), input)
    } else {
        value
    }
}

/// The `k`-th input is the first faulty one, and `e` reports its fault.
pub open spec fn first_fault_is(
    index_model: AiModel,
    inputs: Seq<(StoreInput, StoreValue)>,
    store_original: bool,
    k: int,
    e: AIProxyError,
) -> bool {
    &&& 0 <= k < inputs.len()
    &&& forall|i: int| 0 <= i < k ==> fault_at(index_model, inputs, i, store_original) is None
    &&& fault_at(index_model, inputs, k, store_original) matches Some(f) && fault_error(
        index_model,
        f,
        e,
    )
}

/// The outcome of checking a list of inputs: the error of the first faulty
/// one, or every input with its metadata as prepared.
pub open spec fn preprocess_outcome(
    index_model: AiModel,
    inputs: Seq<(StoreInput, StoreValue)>,
    store_original: bool,
    res: Result<Seq<(StoreInput, StoreValue)>, AIProxyError>,
) -> bool {
    match res {
        Ok(out) => {
            &&& forall|i: int|
                0 <= i < inputs.len() ==> fault_at(index_model, inputs, i, store_original) is None
            &&& out.len() == inputs.len()
            &&& forall|i: int|
                0 <= i < inputs.len() ==> (#[trigger] out[i]).0@ == inputs[i].0@ && out[i].1@
                    == prepared_value(inputs[i].0@, inputs[i].1@, store_original) && out[i].1.wf()
        },
        Err(e) => exists|k: int| #[trigger] first_fault_is(index_model, inputs, store_original, k, e),
    }
}

/// `x` is the input of some pair of the list.
pub open spec fn has_input(s: Seq<(StoreInput, StoreValue)>, x: Option<ValueView>) -> bool {
    exists|i: int| 0 <= i < s.len() && #[trigger] s[i].0@ == x
}

/// A list holds each input of the pairs exactly once, and nothing else.
pub open spec fn lists_inputs_of(list: Seq<MetadataValue>, s: Seq<(StoreInput, StoreValue)>) -> bool {
    &&& distinct_views(list)
    &&& forall|x: Option<ValueView>| #[trigger] has_view(list, x) <==> has_input(s, x)
}

/// The stores of a list of recorded stores; a later name replaces an earlier one.
pub open spec fn stores_of_list(s: Seq<AIStore>) -> Map<Seq<char>, StoreEntry>
    decreases s.len(),
{
    if s.len() == 0 {
        Map::empty()
    } else {
        stores_of_list(s.drop_last()).insert(
            s.last().name.value@,
            entry_of(s.last().query_model, s.last().index_model, s.last().store_original),
        )
    }
}

/// How creating a store turns out.
pub enum CreateOutcome {
    /// The store was added.
    Created,
    /// A store of that name exists and is kept as it is.
    AlreadyPresent,
    /// One of the models is not supported.
    NotInitialized,
    /// The models produce embeddings of different lengths.
    DimensionMismatch,
    /// A store of that name exists and that was asked to be an error.
    AlreadyExists,
}

/// How creating the store `name` turns out.
pub open spec fn create_outcome(
    stores: Map<Seq<char>, StoreEntry>,
    supported: Seq<SupportedModels>,
    name: Seq<char>,
    q: AiModel,
    i: AiModel,
    error_if_exists: bool,
) -> CreateOutcome {
    if !models_supported(supported, q, i) {
        CreateOutcome::NotInitialized
    } else if !same_dimension(q, i) {
        CreateOutcome::DimensionMismatch
    } else if stores.dom().contains(name) {
        if error_if_exists {
            CreateOutcome::AlreadyExists
        } else {
            CreateOutcome::AlreadyPresent
        }
    } else {
        CreateOutcome::Created
    }
}

/// The stores after creating the store `name`.
pub open spec fn create_effect(
    stores: Map<Seq<char>, StoreEntry>,
    supported: Seq<SupportedModels>,
    name: Seq<char>,
    q: AiModel,
    i: AiModel,
    error_if_exists: bool,
    store_original: bool,
) -> Map<Seq<char>, StoreEntry> {
    match create_outcome(stores, supported, name, q, i, error_if_exists) {
        CreateOutcome::Created => stores.insert(name, entry_of(q, i, store_original)),
        _ => stores,
    }
}

/// The result of `create_store` reports its outcome.
pub open spec fn create_result_matches(
    outcome: CreateOutcome,
    name: Seq<char>,
    q: AiModel,
    i: AiModel,
    res: Result<(), AIProxyError>,
) -> bool {
    match outcome {
        CreateOutcome::Created | CreateOutcome::AlreadyPresent => res is Ok,
        CreateOutcome::NotInitialized => res == Err::<(), AIProxyError>(
            AIProxyError::AIModelNotInitialized,
        ),
        CreateOutcome::DimensionMismatch => res == Err::<(), AIProxyError>(
            AIProxyError::DimensionsMismatchError {
                index_model_dim: embedding_size_of(spec_from_ai_model(i)) as usize,
                query_model_dim: embedding_size_of(spec_from_ai_model(q)) as usize,
            },
        ),
        CreateOutcome::AlreadyExists => res matches Err(AIProxyError::StoreAlreadyExists(n)) && n@
            == name,
    }
}

/// How dropping a store turns out.
pub enum DropOutcome {
    /// The store was there and is gone.
    Dropped,
    /// The store was not there, which is no error.
    Absent,
    /// The store was not there, which was asked to be an error.
    NotFound,
}

/// How dropping the store `name` turns out.
pub open spec fn drop_outcome(
    stores: Map<Seq<char>, StoreEntry>,
    name: Seq<char>,
    error_if_not_exists: bool,
) -> DropOutcome {
    if stores.dom().contains(name) {
        DropOutcome::Dropped
    } else if error_if_not_exists {
        DropOutcome::NotFound
    } else {
        DropOutcome::Absent
    }
}

/// The result of `drop_store` reports its outcome.
pub open spec fn drop_result_matches(
    outcome: DropOutcome,
    name: Seq<char>,
    res: Result<usize, AIProxyError>,
) -> bool {
    match outcome {
        DropOutcome::Dropped => res == Ok::<usize, AIProxyError>(1),
        DropOutcome::Absent => res == Ok::<usize, AIProxyError>(0),
        DropOutcome::NotFound => res matches Err(AIProxyError::StoreNotFound(n)) && n@ == name,
    }
}

/// Whether `m` is in `models`.
fn contains_model(models: &Vec<SupportedModels>, m: SupportedModels) -> (res: bool)
    ensures
        res == models@.contains(m),
{
    let mut i: usize = 0;
    while i < models.len()
        invariant
            0 <= i <= models@.len(),
            forall|j: int| 0 <= j < i ==> models@[j] != m,
        decreases models@.len() - i,
    {
        if models[i] == m {
            assert(models@[i as int] == m);
            return true;
        }
        i = i + 1;
    }
    false
}

/// The values of a list are pairwise different.
pub open spec fn distinct_views(list: Seq<MetadataValue>) -> bool {
    forall|i: int, j: int|
        0 <= i < list.len() && 0 <= j < list.len() && i != j ==> #[trigger] list[i]@
            != #[trigger] list[j]@
}

/// `x` is the value of some element of `list`.
pub open spec fn has_view(list: Seq<MetadataValue>, x: Option<ValueView>) -> bool {
    exists|i: int| 0 <= i < list.len() && #[trigger] list[i]@ == x
}

/// Adds `v` to `list` unless a value equal to it is already there.
pub(crate) fn push_unique(list: &mut Vec<MetadataValue>, v: MetadataValue)
    requires
        distinct_views(old(list)@),
    ensures
        distinct_views(final(list)@),
        forall|x: Option<ValueView>|
            #[trigger] has_view(final(list)@, x) <==> (has_view(old(list)@, x) || x == v@),
{
    let mut i: usize = 0;
    while i < list.len()
        invariant
            list@ == old(list)@,
            distinct_views(list@),
            0 <= i <= list@.len(),
            forall|j: int| 0 <= j < i ==> list@[j]@ != v@,
        decreases list@.len() - i,
    {
        if list[i].same_as(&v) {
            proof {
                assert forall|x: Option<ValueView>|
                    #[trigger] has_view(list@, x) <==> (has_view(old(list)@, x) || x == v@) by {
                    if x == v@ {
                        assert(list@[i as int]@ == x);
                    }
                }
            }
            return;
        }
        i = i + 1;
    }
    let ghost before = list@;
    list.push(v);
    proof {
        assert forall|x: Option<ValueView>|
            #[trigger] has_view(list@, x) <==> (has_view(before, x) || x == v@) by {
            if has_view(before, x) {
                let k = choose|k: int| 0 <= k < before.len() && #[trigger] before[k]@ == x;
                assert(list@[k] == before[k]);
            }
            if x == v@ {
                assert(list@[before.len() as int]@ == x);
            }
            if has_view(list@, x) {
                let k = choose|k: int| 0 <= k < list@.len() && #[trigger] list@[k]@ == x;
                if k < before.len() {
                    assert(list@[k] == before[k]);
                }
            }
        }
        assert forall|a: int, b: int|
            0 <= a < list@.len() && 0 <= b < list@.len() && a != b implies #[trigger] list@[a]@
            != #[trigger] list@[b]@ by {
            if a < before.len() && b < before.len() {
                assert(list@[a] == before[a]);
                assert(list@[b] == before[b]);
            } else if a < before.len() {
                assert(list@[a] == before[a]);
            } else {
                assert(list@[b] == before[b]);
            }
        }
    }
}

/// Checks each input against the index model and, when originals are kept,
/// records the input under the reserved key of its metadata. The first input
/// that cannot be stored decides the error. When originals are kept, also
/// gives the inputs, each once, whose earlier entries are to be replaced.
pub fn preprocess_store_input(
    index_model: AiModel,
    inputs: Vec<(StoreInput, StoreValue)>,
    store_original: bool,
) -> (res: Result<(Vec<(StoreInput, StoreValue)>, Option<Vec<MetadataValue>>), AIProxyError>)
    requires
        forall|i: int| 0 <= i < inputs@.len() ==> (#[trigger] inputs@[i]).1.wf(),
    ensures
        preprocess_outcome(
            index_model,
            inputs@,
            store_original,
            match res {
                Ok((out, _)) => Ok(out@),
                Err(e) => Err(e),
            },
        ),
        match res {
            Ok((_, Some(del))) => store_original && lists_inputs_of(del@, inputs@),
            Ok((_, None)) => !store_original,
            Err(_) => true,
        },
{
    let ghost orig = inputs@;
    let total = inputs.len();
    let index_type = SupportedModels::from_ai_model(&index_model).to_model_details().input_type();
    let mut output: Vec<(StoreInput, StoreValue)> = Vec::new();
    let mut delete_list: Vec<MetadataValue> = Vec::new();
    let mut rest = crate::seqs::reversed(inputs);
    let mut n: usize = 0;
    while rest.len() > 0
        invariant
            index_type == index_input_type(index_model),
            n + rest@.len() == orig.len(),
            orig == inputs@,
            total == orig.len(),
            n == output@.len(),
            forall|i: int| 0 <= i < rest@.len() ==> #[trigger] rest@[i] == orig[orig.len() - 1 - i],
            forall|i: int| 0 <= i < orig.len() ==> (#[trigger] orig[i]).1.wf(),
            forall|i: int| 0 <= i < n ==> fault_at(index_model, orig, i, store_original) is None,
            forall|i: int|
                0 <= i < n ==> (#[trigger] output@[i]).0@ == orig[i].0@ && output@[i].1@
                    == prepared_value(orig[i].0@, orig[i].1@, store_original) && output@[i].1.wf(),
            store_original ==> lists_inputs_of(delete_list@, orig.subrange(0, n as int)),
        decreases rest@.len(),
    {
        let (store_input, mut store_value) = rest.pop().unwrap();
        assert(store_input@ == orig[n as int].0@ && store_value@ == orig[n as int].1@);
        let input_type = match store_input.input_type() {
            Some(t) => t,
            None => {
                assert(fault_at(index_model, orig, n as int, store_original) == Some(
                    InputFault::Missing,
                ));
                let e = AIProxyError::InputNotSpecified(String::from_str("Store Input Value"));
                assert(first_fault_is(index_model, orig, store_original, n as int, e));
                return Err(e);
            },
        };
        if input_type != index_type {
            assert(fault_at(index_model, orig, n as int, store_original) == Some(
                InputFault::TypeMismatch(input_type),
            ));
            let e = AIProxyError::StoreTypeMismatchError {
                action: InputAction::Index,
                index_model_type: index_type,
                storeinput_type: input_type,
            };
            assert(first_fault_is(index_model, orig, store_original, n as int, e));
            return Err(e);
        }
        if store_original {
            let key = reserved_meta_key_string();
            if store_value.contains_key(key.as_str()) {
                assert(fault_at(index_model, orig, n as int, store_original) == Some(
                    InputFault::Reserved,
                ));
                let e = AIProxyError::ReservedError(key);
                assert(first_fault_is(index_model, orig, store_original, n as int, e));
                return Err(e);
            }
            let metadata_value = match store_input.to_metadata() {
                Some(m) => m,
                None => {
                    return Err(
                        AIProxyError::InputNotSpecified(String::from_str("Store Input Value")),
                    );
                },
            };
            let for_delete = metadata_value.duplicate();
            store_value.insert(key, metadata_value);
            let ghost before = delete_list@;
            push_unique(&mut delete_list, for_delete);
            proof {
                let s = orig.subrange(0, n as int + 1);
                assert forall|x: Option<ValueView>| #[trigger] has_view(delete_list@, x) <==> has_input(
                    s,
                    x,
                ) by {
                    let t = orig.subrange(0, n as int);
                    if has_input(s, x) {
                        let k = choose|k: int| 0 <= k < s.len() && #[trigger] s[k].0@ == x;
                        if k < n {
                            assert(t[k] == s[k]);
                            assert(has_input(t, x));
                        }
                    }
                    if has_input(t, x) {
                        let k = choose|k: int| 0 <= k < t.len() && #[trigger] t[k].0@ == x;
                        assert(t[k] == s[k]);
                    }
                    if x == store_input@ {
                        assert(s[n as int].0@ == x);
                    }
                }
            }
        }
        output.push((store_input, store_value));
        n = n + 1;
    }
    proof {
        assert(orig.subrange(0, orig.len() as int) =~= orig);
    }
    if store_original {
        Ok((output, Some(delete_list)))
    } else {
        Ok((output, None))
    }
}

impl AIStore {
    /// A store record.
    pub fn create(
        store_name: StoreName,
        query_model: AiModel,
        index_model: AiModel,
        store_original: bool,
    ) -> (res: AIStore)
        ensures
            res.name == store_name,
            res.query_model == query_model,
            res.index_model == index_model,
            res.store_original == store_original,
    {
        AIStore { name: store_name, query_model, index_model, store_original }
    }
}

impl AIStoreHandler {
    /// The stores, by name.
    pub closed spec fn stores(&self) -> Map<Seq<char>, StoreEntry> {
        table_contents(self.stores)
    }

    /// The models the proxy supports.
    pub closed spec fn supported(&self) -> Seq<SupportedModels> {
        self.supported_models@
    }

    /// Whether a change was made since the flag was last cleared.
    pub closed spec fn written(&self) -> bool {
        self.write_flag
    }

    /// The table of stores is finite.
    pub closed spec fn wf(&self) -> bool {
        table_contents(self.stores).dom().finite()
    }

    /// A handler with no stores.
    pub fn new(write_flag: bool, supported_models: Vec<SupportedModels>) -> (res: Self)
        ensures
            res.wf(),
            res.stores() == no_stores(),
            res.supported() == supported_models@,
            res.written() == write_flag,
    {
        AIStoreHandler { stores: table_new(), write_flag, supported_models }
    }

    /// Whether a change was made since the flag was last cleared.
    pub fn write_flag(&self) -> (res: bool)
        ensures
            res == self.written(),
    {
        self.write_flag
    }

    /// Clears the change flag and gives back what it was.
    pub fn take_write_flag(&mut self) -> (res: bool)
        ensures
            res == old(self).written(),
            !final(self).written(),
            final(self).stores() == old(self).stores(),
            final(self).supported() == old(self).supported(),
            final(self).wf() == old(self).wf(),
    {
        let r = self.write_flag;
        self.write_flag = false;
        r
    }

    fn set_write_flag(&mut self)
        ensures
            final(self).written(),
            final(self).stores() == old(self).stores(),
            final(self).supported() == old(self).supported(),
            final(self).wf() == old(self).wf(),
    {
        self.write_flag = true;
    }

    /// Creates a store. Both models must be supported and produce embeddings of
    /// the same length. An existing store of that name is left as it is; that
    /// is an error only when `error_if_exists` is set.
    pub fn create_store(
        &mut self,
        store_name: StoreName,
        query_model: AiModel,
        index_model: AiModel,
        error_if_exists: bool,
        store_original: bool,
    ) -> (res: Result<(), AIProxyError>)
        requires
            old(self).wf(),
        ensures
            final(self).wf(),
            final(self).supported() == old(self).supported(),
            final(self).stores() == create_effect(
                old(self).stores(),
                old(self).supported(),
                store_name.value@,
                query_model,
                index_model,
                error_if_exists,
                store_original,
            ),
            create_result_matches(
                create_outcome(
                    old(self).stores(),
                    old(self).supported(),
                    store_name.value@,
                    query_model,
                    index_model,
                    error_if_exists,
                ),
                store_name.value@,
                query_model,
                index_model,
                res,
            ),
            final(self).written() == (old(self).written() || res is Ok),
    {
        let q = SupportedModels::from_ai_model(&query_model);
        let i = SupportedModels::from_ai_model(&index_model);
        if !contains_model(&self.supported_models, q) || !contains_model(&self.supported_models, i) {
            return Err(AIProxyError::AIModelNotInitialized);
        }
        let index_repr = i.to_model_details();
        let query_repr = q.to_model_details();
        if index_repr.embedding_size != query_repr.embedding_size {
            return Err(
                AIProxyError::DimensionsMismatchError {
                    index_model_dim: index_repr.embedding_size,
                    query_model_dim: query_repr.embedding_size,
                },
            );
        }
        let name_copy = store_name.value.clone();
        let inserted = table_try_insert(
            &mut self.stores,
            store_name.value,
            StoreEntry { query_model, index_model, store_original },
        );
        if !inserted && error_if_exists {
            return Err(AIProxyError::StoreAlreadyExists(name_copy));
        }
        self.set_write_flag();
        Ok(())
    }

    /// What is known of each store, in no particular order; the embedding size
    /// is that of the index model.
    pub fn list_stores(&self) -> (res: Vec<AiStoreInfo>)
        requires
            self.wf(),
        ensures
            res@.len() == self.stores().dom().len(),
            forall|i: int, j: int|
                0 <= i < res@.len() && 0 <= j < res@.len() && i != j ==> #[trigger] res@[i].name@
                    != #[trigger] res@[j].name@,
            forall|i: int|
                0 <= i < res@.len() ==> {
                    let info = #[trigger] res@[i];
                    &&& self.stores().dom().contains(info.name@)
                    &&& info.query_model == self.stores()[info.name@].query_model
                    &&& info.index_model == self.stores()[info.name@].index_model
                    &&& info.embedding_size == embedding_size_of(
                        spec_from_ai_model(info.index_model),
                    )
                    &&& info.predicate_indices@.len() == 0
                    &&& info.db_info is None
                },
            forall|n: Seq<char>|
                self.stores().dom().contains(n) ==> exists|i: int|
                    0 <= i < res@.len() && #[trigger] res@[i].name@ == n,
    {
        let entries = table_entries(&self.stores);
        let mut out: Vec<AiStoreInfo> = Vec::new();
        let mut i: usize = 0;
        while i < entries.len()
            invariant
                0 <= i <= entries@.len(),
                forall|j: int|
                    #![trigger entries@[j]]
                    0 <= j < entries@.len() ==> self.stores().dom().contains(entries@[j].0@)
                        && self.stores()[entries@[j].0@] == entries@[j].1,
                out@.len() == i,
                forall|j: int|
                    0 <= j < i ==> (#[trigger] out@[j]).name@ == entries@[j].0@ && out@[j].query_model
                        == entries@[j].1.query_model && out@[j].index_model
                        == entries@[j].1.index_model && out@[j].embedding_size
                        == embedding_size_of(spec_from_ai_model(out@[j].index_model))
                        && out@[j].predicate_indices@.len() == 0 && out@[j].db_info is None,
            decreases entries@.len() - i,
        {
            let (name, entry) = &entries[i];
            let size = SupportedModels::from_ai_model(&entry.index_model).embedding_size();
            out.push(
                AiStoreInfo {
                    name: name.clone(),
                    query_model: entry.query_model,
                    index_model: entry.index_model,
                    embedding_size: size as u64,
                    predicate_indices: Vec::new(),
                    db_info: None,
                },
            );
            i = i + 1;
        }
        proof {
            assert forall|n: Seq<char>| self.stores().dom().contains(n) implies exists|i: int|
                0 <= i < out@.len() && #[trigger] out@[i].name@ == n by {
                lemma_listed_entries_cover(entries@, self.stores(), n);
                let j = choose|j: int| 0 <= j < entries@.len() && #[trigger] entries@[j].0@ == n;
                assert(out@[j].name@ == n);
            }
        }
        out
    }

    /// The store of that name, or `StoreNotFound`.
    pub fn get(&self, store_name: &StoreName) -> (res: Result<AIStore, AIProxyError>)
        ensures
            match res {
                Ok(s) => self.stores().dom().contains(store_name.value@) && s.name.value@
                    == store_name.value@ && entry_of(s.query_model, s.index_model, s.store_original)
                    == self.stores()[store_name.value@],
                Err(e) => !self.stores().dom().contains(store_name.value@) && (e matches AIProxyError::StoreNotFound(n) && n@ == store_name.value@),
            },
    {
        match table_get(&self.stores, store_name.value.as_str()) {
            Some(entry) => Ok(
                AIStore {
                    name: StoreName { value: store_name.value.clone() },
                    query_model: entry.query_model,
                    index_model: entry.index_model,
                    store_original: entry.store_original,
                },
            ),
            None => Err(AIProxyError::StoreNotFound(store_name.value.clone())),
        }
    }

    /// Whether the store keeps the original inputs, or `StoreNotFound`.
    pub fn store_original(&self, store_name: StoreName) -> (res: Result<bool, AIProxyError>)
        ensures
            match res {
                Ok(b) => self.stores().dom().contains(store_name.value@) && b == self.stores()[store_name.value@].store_original,
                Err(e) => !self.stores().dom().contains(store_name.value@) && (e matches AIProxyError::StoreNotFound(n) && n@ == store_name.value@),
            },
    {
        let store = self.get(&store_name)?;
        Ok(store.store_original)
    }

    /// Drops a store and gives the number of stores dropped, 0 or 1. A missing
    /// store is an error only when `error_if_not_exists` is set.
    pub fn drop_store(&mut self, store_name: StoreName, error_if_not_exists: bool) -> (res: Result<
        usize,
        AIProxyError,
    >)
        requires
            old(self).wf(),
        ensures
            final(self).wf(),
            final(self).supported() == old(self).supported(),
            final(self).stores() == old(self).stores().remove(store_name.value@),
            drop_result_matches(
                drop_outcome(old(self).stores(), store_name.value@, error_if_not_exists),
                store_name.value@,
                res,
            ),
            final(self).written() == (old(self).written() || old(self).stores().dom().contains(
                store_name.value@,
            )),
    {
        let removed = table_remove(&mut self.stores, store_name.value.as_str());
        if !removed && error_if_not_exists {
            return Err(AIProxyError::StoreNotFound(store_name.value));
        }
        if !removed {
            Ok(0)
        } else {
            self.set_write_flag();
            Ok(1)
        }
    }

    /// Drops every store and gives how many there were.
    pub fn purge_stores(&mut self) -> (res: usize)
        requires
            old(self).wf(),
        ensures
            final(self).wf(),
            res == old(self).stores().dom().len(),
            final(self).stores() == no_stores(),
            final(self).supported() == old(self).supported(),
            final(self).written() == old(self).written(),
    {
        let n = table_len(&self.stores);
        table_clear(&mut self.stores);
        n
    }

    /// The stores as a list of records, one per store.
    pub fn get_snapshot(&self) -> (res: Vec<AIStore>)
        requires
            self.wf(),
        ensures
            stores_of_list(res@) == self.stores(),
            res@.len() == self.stores().dom().len(),
    {
        let entries = table_entries(&self.stores);
        let mut out: Vec<AIStore> = Vec::new();
        let mut i: usize = 0;
        while i < entries.len()
            invariant
                0 <= i <= entries@.len(),
                out@.len() == i,
                forall|a: int, b: int|
                    0 <= a < entries@.len() && 0 <= b < entries@.len() && a != b ==> #[trigger] entries@[a].0@
                        != #[trigger] entries@[b].0@,
                forall|j: int|
                    0 <= j < i ==> (#[trigger] out@[j]).name.value@ == entries@[j].0@ && entry_of(
                        out@[j].query_model,
                        out@[j].index_model,
                        out@[j].store_original,
                    ) == entries@[j].1,
                stores_of_list(out@) =~= Map::new(
                    |k: Seq<char>| exists|j: int| 0 <= j < i && #[trigger] entries@[j].0@ == k,
                    |k: Seq<char>|
                        entries@[choose|j: int| 0 <= j < i && #[trigger] entries@[j].0@ == k].1,
                ),
            decreases entries@.len() - i,
        {
            let (name, entry) = &entries[i];
            let ghost before = out@;
            out.push(
                AIStore {
                    name: StoreName { value: name.clone() },
                    query_model: entry.query_model,
                    index_model: entry.index_model,
                    store_original: entry.store_original,
                },
            );
            proof {
                assert(out@.drop_last() =~= before);
                let m_new = Map::new(
                    |k: Seq<char>| exists|j: int| 0 <= j < i + 1 && #[trigger] entries@[j].0@ == k,
                    |k: Seq<char>|
                        entries@[choose|j: int| 0 <= j < i + 1 && #[trigger] entries@[j].0@ == k].1,
                );
                assert forall|k: Seq<char>| #[trigger] stores_of_list(out@).dom().contains(k) <==> m_new.dom().contains(k) by {
                    if k == entries@[i as int].0@ {
                        assert(entries@[i as int].0@ == k);
                    }
                }
                assert forall|k: Seq<char>| #[trigger] stores_of_list(out@).dom().contains(k) implies stores_of_list(out@)[k] == m_new[k] by {
                    let j = choose|j: int| 0 <= j < i + 1 && #[trigger] entries@[j].0@ == k;
                    if k == entries@[i as int].0@ {
                        assert(j == i);
                    } else {
                        let j0 = choose|j: int| 0 <= j < i && #[trigger] entries@[j].0@ == k;
                        assert(j == j0);
                    }
                }
                assert(stores_of_list(out@) =~= m_new);
            }
            i = i + 1;
        }
        proof {
            assert forall|k: Seq<char>| #[trigger] stores_of_list(out@).dom().contains(k) <==> self.stores().dom().contains(k) by {
                if self.stores().dom().contains(k) {
                    lemma_listed_entries_cover(entries@, self.stores(), k);
                }
            }
            assert forall|k: Seq<char>| #[trigger] stores_of_list(out@).dom().contains(k) implies stores_of_list(out@)[k] == self.stores()[k] by {
                let j = choose|j: int| 0 <= j < entries@.len() && #[trigger] entries@[j].0@ == k;
            }
            assert(stores_of_list(out@) =~= self.stores());
        }
        out
    }

    /// Replaces the stores with those of a list of records; a later record of a
    /// name replaces an earlier one.
    pub fn use_snapshot(&mut self, snapshot: Vec<AIStore>)
        requires
            old(self).wf(),
        ensures
            final(self).wf(),
            final(self).stores() == stores_of_list(snapshot@),
            final(self).supported() == old(self).supported(),
            final(self).written() == old(self).written(),
    {
        let mut table = table_new();
        let ghost all = snapshot@;
        let total = snapshot.len();
        let mut rest = crate::seqs::reversed(snapshot);
        let mut n: usize = 0;
        while rest.len() > 0
            invariant
                n + rest@.len() == all.len(),
                total == all.len(),
                forall|i: int| 0 <= i < rest@.len() ==> #[trigger] rest@[i] == all[all.len() - 1 - i],
                table_contents(table) == stores_of_list(all.subrange(0, n as int)),
                table_contents(table).dom().finite(),
            decreases rest@.len(),
        {
            let store = rest.pop().unwrap();
            proof {
                let s = all.subrange(0, n as int + 1);
                assert(s.drop_last() =~= all.subrange(0, n as int));
                assert(s.last() == store);
            }
            table_insert(
                &mut table,
                store.name.value,
                StoreEntry {
                    query_model: store.query_model,
                    index_model: store.index_model,
                    store_original: store.store_original,
                },
            );
            n = n + 1;
        }
        proof {
            assert(all.subrange(0, all.len() as int) =~= all);
        }
        self.stores = table;
    }
}

impl AIStoreHandler {
    /// Checks the inputs of a `set` against the store's index model and
    /// prepares their metadata. A store that keeps its original inputs also
    /// gets the list of those inputs, whose earlier entries the `set` replaces.
    pub fn validate_and_prepare_store_data(
        &self,
        store_name: &StoreName,
        inputs: Vec<(StoreInput, StoreValue)>,
    ) -> (res: Result<(Vec<(StoreInput, StoreValue)>, Option<Vec<MetadataValue>>), AIProxyError>)
        requires
            forall|i: int| 0 <= i < inputs@.len() ==> (#[trigger] inputs@[i]).1.wf(),
        ensures
            !self.stores().dom().contains(store_name.value@) ==> (res matches Err(
                AIProxyError::StoreNotFound(n),
            ) && n@ == store_name.value@),
            self.stores().dom().contains(store_name.value@) ==> preprocess_outcome(
                self.stores()[store_name.value@].index_model,
                inputs@,
                self.stores()[store_name.value@].store_original,
                match res {
                    Ok((out, _)) => Ok(out@),
                    Err(e) => Err(e),
                },
            ),
            self.stores().dom().contains(store_name.value@) ==> match res {
                Ok((_, Some(del))) => self.stores()[store_name.value@].store_original
                    && lists_inputs_of(del@, inputs@),
                Ok((_, None)) => !self.stores()[store_name.value@].store_original,
                Err(_) => true,
            },
    {
        let store = self.get(store_name)?;
        preprocess_store_input(store.index_model, inputs, store.store_original)
    }

    /// Records the original input of an entry under the reserved key of its
    /// metadata, replacing what was there; an input without a value cannot be
    /// recorded.
    pub fn store_input_to_store_key_val(
        &self,
        store_input: StoreInput,
        store_value: StoreValue,
    ) -> (res: Result<(StoreInput, StoreValue), AIProxyError>)
        requires
            store_value.wf(),
        ensures
            match store_input@ {
                Some(v) => res matches Ok((i, m)) && i@ == store_input@ && m.wf() && m@
                    == store_value@.insert(reserved_meta_key(), Some(v)),
                None => res matches Err(AIProxyError::InputNotSpecified(msg)) && msg@
                    == "Store Input Value"@,
            },
    {
        let metadata_value = match store_input.to_metadata() {
            Some(m) => m,
            None => {
                return Err(AIProxyError::InputNotSpecified(String::from_str("Store Input Value")));
            },
        };
        let mut value = store_value;
        value.insert(reserved_meta_key_string(), metadata_value);
        Ok((store_input, value))
    }

    /// The first half of a `set`: an empty list of inputs needs no model and
    /// gives `None`; otherwise the inputs are checked and prepared, and the
    /// store's index model is given for embedding them, with the inputs whose
    /// earlier entries are replaced when the store keeps its original inputs.
    pub fn set_prepare(
        &self,
        store_name: &StoreName,
        inputs: Vec<(StoreInput, StoreValue)>,
    ) -> (res: Result<
        Option<(AiModel, Vec<(StoreInput, StoreValue)>, Option<Vec<MetadataValue>>)>,
        AIProxyError,
    >)
        requires
            forall|i: int| 0 <= i < inputs@.len() ==> (#[trigger] inputs@[i]).1.wf(),
        ensures
            !self.stores().dom().contains(store_name.value@) ==> (res matches Err(
                AIProxyError::StoreNotFound(n),
            ) && n@ == store_name.value@),
            self.stores().dom().contains(store_name.value@) && inputs@.len() == 0 ==> res matches Ok(
                None,
            ),
            self.stores().dom().contains(store_name.value@) && inputs@.len() > 0 ==> {
                &&& preprocess_outcome(
                    self.stores()[store_name.value@].index_model,
                    inputs@,
                    self.stores()[store_name.value@].store_original,
                    match res {
                        Ok(Some((_, out, _))) => Ok(out@),
                        Ok(None) => Ok(Seq::empty()),
                        Err(e) => Err(e),
                    },
                )
                &&& res matches Ok(x) ==> x matches Some((m, _, d)) && m
                    == self.stores()[store_name.value@].index_model && match d {
                    Some(del) => self.stores()[store_name.value@].store_original && lists_inputs_of(
                        del@,
                        inputs@,
                    ),
                    None => !self.stores()[store_name.value@].store_original,
                }
            },
    {
        let store = self.get(store_name)?;
        if inputs.len() == 0 {
            return Ok(None);
        }
        let (validated, replaced) = self.validate_and_prepare_store_data(store_name, inputs)?;
        Ok(Some((store.index_model, validated, replaced)))
    }
}

/// The embeddings of one model response.
pub open spec fn response_keys<K>(r: ModelResponse<K>) -> Seq<K> {
    match r {
        ModelResponse::OneToOne(k) => seq![k],
        ModelResponse::OneToMany(ks) => ks@,
    }
}

/// The database entries, as (key, metadata), that the model's responses give:
/// the `i`-th response with the `i`-th metadata; a response with several
/// embeddings gives one entry per embedding, each with that metadata.
pub open spec fn set_entries_spec<K>(
    responses: Seq<ModelResponse<K>>,
    values: Seq<Map<Seq<char>, Option<ValueView>>>,
) -> Seq<(K, Map<Seq<char>, Option<ValueView>>)>
    decreases responses.len(),
{
    if responses.len() == 0 {
        Seq::empty()
    } else {
        set_entries_spec(responses.drop_last(), values) + response_keys(responses.last()).map_values(
            |k: K| (k, values[responses.len() - 1]),
        )
    }
}

/// The views of a list of metadata.
pub open spec fn value_views(values: Seq<StoreValue>) -> Seq<Map<Seq<char>, Option<ValueView>>> {
    values.map_values(|v: StoreValue| v@)
}

/// Turns the model's responses and the prepared metadata into database
/// entries. The two lists are paired position by position as far as the
/// shorter one goes.
pub fn set_entries<K>(responses: Vec<ModelResponse<K>>, values: Vec<StoreValue>) -> (res: Vec<
    DbStoreEntry<K>,
>)
    requires
        forall|i: int| 0 <= i < values@.len() ==> (#[trigger] values@[i]).wf(),
    ensures
        ({
            let n = if responses@.len() <= values@.len() {
                responses@.len()
            } else {
                values@.len()
            };
            let expected = set_entries_spec(responses@.subrange(0, n as int), value_views(values@));
            &&& res@.len() == expected.len()
            &&& forall|k: int|
                0 <= k < res@.len() ==> (#[trigger] res@[k]).key == Some(expected[k].0) && (res@[k].value matches Some(
                    v,
                ) && v@ == expected[k].1 && v.wf())
        }),
{
    let ghost all_r = responses@;
    let ghost all_v = values@;
    let n: usize = if responses.len() <= values.len() {
        responses.len()
    } else {
        values.len()
    };
    let mut rest_r = crate::seqs::reversed(responses);
    let mut rest_v = crate::seqs::reversed(values);
    let mut out: Vec<DbStoreEntry<K>> = Vec::new();
    let mut r: usize = 0;
    while r < n
        invariant
            n <= all_r.len(),
            n <= all_v.len(),
            0 <= r <= n,
            rest_r@.len() + r == all_r.len(),
            rest_v@.len() + r == all_v.len(),
            forall|i: int| 0 <= i < rest_r@.len() ==> #[trigger] rest_r@[i] == all_r[all_r.len() - 1 - i],
            forall|i: int| 0 <= i < rest_v@.len() ==> #[trigger] rest_v@[i] == all_v[all_v.len() - 1 - i],
            forall|i: int| 0 <= i < all_v.len() ==> (#[trigger] all_v[i]).wf(),
            out@.len() == set_entries_spec(all_r.subrange(0, r as int), value_views(all_v)).len(),
            forall|k: int|
                0 <= k < out@.len() ==> (#[trigger] out@[k]).key == Some(
                    set_entries_spec(all_r.subrange(0, r as int), value_views(all_v))[k].0,
                ) && (out@[k].value matches Some(v) && v@ == set_entries_spec(
                    all_r.subrange(0, r as int),
                    value_views(all_v),
                )[k].1 && v.wf()),
        decreases n - r,
    {
        let response = rest_r.pop().unwrap();
        let value = rest_v.pop().unwrap();
        assert(value == all_v[r as int]);
        assert(response == all_r[r as int]);
        let ghost prev = set_entries_spec(all_r.subrange(0, r as int), value_views(all_v));
        let ghost next = set_entries_spec(all_r.subrange(0, r as int + 1), value_views(all_v));
        proof {
            assert(all_r.subrange(0, r as int + 1).drop_last() =~= all_r.subrange(0, r as int));
            assert(value_views(all_v)[r as int] == value@);
            assert(next == prev + response_keys(response).map_values(
                |k: K| (k, value_views(all_v)[r as int]),
            ));
        }
        let ghost before = out@;
        match response {
            ModelResponse::OneToOne(key) => {
                out.push(DbStoreEntry { key: Some(key), value: Some(value) });
                proof {
                    assert forall|k: int| 0 <= k < out@.len() implies (#[trigger] out@[k]).key == Some(
                        next[k].0,
                    ) && (out@[k].value matches Some(v) && v@ == next[k].1 && v.wf()) by {
                        if k < before.len() {
                            assert(out@[k] == before[k]);
                        }
                    }
                }
            },
            ModelResponse::OneToMany(keys) => {
                let ghost ks = keys@;
                let mut rest_k = crate::seqs::reversed(keys);
                let mut j: usize = 0;
                let total_k = rest_k.len();
                while rest_k.len() > 0
                    invariant
                        rest_k@.len() + j == ks.len(),
                        total_k == ks.len(),
                        forall|i: int| 0 <= i < rest_k@.len() ==> #[trigger] rest_k@[i] == ks[ks.len() - 1 - i],
                        value.wf(),
                        value@ == value_views(all_v)[r as int],
                        out@.len() == before.len() + j,
                        forall|k: int| 0 <= k < before.len() ==> #[trigger] out@[k] == before[k],
                        forall|k: int|
                            0 <= k < j ==> (#[trigger] out@[before.len() + k]).key == Some(ks[k]) && (
                            out@[before.len() + k].value matches Some(v) && v@ == value@ && v.wf()),
                    decreases rest_k@.len(),
                {
                    let key = rest_k.pop().unwrap();
                    out.push(DbStoreEntry { key: Some(key), value: Some(value.duplicate()) });
                    proof {
                        assert(out@[before.len() + j as int].key == Some(ks[j as int]));
                    }
                    j = j + 1;
                }
                proof {
                    assert forall|k: int| 0 <= k < out@.len() implies (#[trigger] out@[k]).key == Some(
                        next[k].0,
                    ) && (out@[k].value matches Some(v) && v@ == next[k].1 && v.wf()) by {
                        if k >= before.len() {
                            let t = k - before.len();
                            assert(out@[before.len() + t] == out@[k]);
                        }
                    }
                }
            },
        }
        r = r + 1;
    }
    out
}

/// The embedding a query is searched by: the model's last response, which
/// must hold exactly one embedding.
pub fn query_key_from_responses<K>(responses: Vec<ModelResponse<K>>) -> (res: Result<K, AIProxyError>)
    ensures
        responses@.len() == 0 ==> res == Err::<K, AIProxyError>(
            AIProxyError::ModelInputToEmbeddingError,
        ),
        responses@.len() > 0 ==> match responses@.last() {
            ModelResponse::OneToOne(k) => res == Ok::<K, AIProxyError>(k),
            ModelResponse::OneToMany(ks) => if ks@.len() == 0 {
                res == Err::<K, AIProxyError>(AIProxyError::ModelInputToEmbeddingError)
            } else if ks@.len() == 1 {
                res == Ok::<K, AIProxyError>(ks@[0])
            } else {
                res == Err::<K, AIProxyError>(
                    AIProxyError::MultipleEmbeddingsForQuery(ks@.len() as usize),
                )
            },
        },
{
    let mut responses = responses;
    match responses.pop() {
        Some(ModelResponse::OneToOne(k)) => Ok(k),
        Some(ModelResponse::OneToMany(mut many)) => {
            let n = many.len();
            if n == 0 {
                Err(AIProxyError::ModelInputToEmbeddingError)
            } else if n == 1 {
                Ok(many.pop().unwrap())
            } else {
                Err(AIProxyError::MultipleEmbeddingsForQuery(n))
            }
        },
        None => Err(AIProxyError::ModelInputToEmbeddingError),
    }
}

/// The original input recorded in some metadata, and the metadata without it.
pub open spec fn split_original(value: Map<Seq<char>, Option<ValueView>>) -> (
    Option<ValueView>,
    Map<Seq<char>, Option<ValueView>>,
) {
    (
        if value.dom().contains(reserved_meta_key()) {
            value[reserved_meta_key()]
        } else {
            None
        },
        value.remove(reserved_meta_key()),
    )
}

/// The metadata of an entry, if it has any, is well formed.
pub open spec fn entry_value_wf<K>(e: DbStoreEntry<K>) -> bool {
    match e.value {
        Some(v) => v.wf(),
        None => true,
    }
}

/// The entries with metadata, in order; the rest are left out.
pub open spec fn with_values<K>(s: Seq<DbStoreEntry<K>>) -> Seq<StoreValue>
    decreases s.len(),
{
    if s.len() == 0 {
        Seq::empty()
    } else {
        with_values(s.drop_last()) + match s.last().value {
            Some(v) => seq![v],
            None => Seq::empty(),
        }
    }
}

impl AIStoreHandler {
    /// Turns database entries into entries for clients: each entry with
    /// metadata gives one, whose key is the original input recorded under the
    /// reserved key (removed from the metadata), if there is one.
    pub fn db_store_entry_to_store_get_key<K>(&self, input: Vec<DbStoreEntry<K>>) -> (res: Vec<GetEntry>)
        requires
            forall|i: int| 0 <= i < input@.len() ==> entry_value_wf(#[trigger] input@[i]),
        ensures
            res@.len() == with_values(input@).len(),
            forall|i: int|
                0 <= i < res@.len() ==> {
                    let (orig, rest) = split_original(with_values(input@)[i]@);
                    &&& (#[trigger] res@[i]).value matches Some(v) && v@ == rest && v.wf()
                    &&& match res@[i].key {
                        Some(k) => orig == k@ && k@ is Some,
                        None => orig is None,
                    }
                },
    {
        let ghost all = input@;
        let mut rest = crate::seqs::reversed(input);
        let total = rest.len();
        let mut n: usize = 0;
        let mut out: Vec<GetEntry> = Vec::new();
        let key = reserved_meta_key_string();
        while rest.len() > 0
            invariant
                n + rest@.len() == all.len(),
                total == all.len(),
                key@ == reserved_meta_key(),
                forall|i: int| 0 <= i < rest@.len() ==> #[trigger] rest@[i] == all[all.len() - 1 - i],
                forall|i: int| 0 <= i < all.len() ==> entry_value_wf(#[trigger] all[i]),
                out@.len() == with_values(all.subrange(0, n as int)).len(),
                forall|i: int|
                    0 <= i < out@.len() ==> {
                        let (orig, rest) = split_original(with_values(all.subrange(0, n as int))[i]@);
                        &&& (#[trigger] out@[i]).value matches Some(v) && v@ == rest && v.wf()
                        &&& match out@[i].key {
                            Some(k) => orig == k@ && k@ is Some,
                            None => orig is None,
                        }
                    },
            decreases rest@.len(),
        {
            let entry = rest.pop().unwrap();
            let ghost prev = with_values(all.subrange(0, n as int));
            proof {
                assert(all.subrange(0, n as int + 1).drop_last() =~= all.subrange(0, n as int));
                assert(entry == all[n as int]);
            }
            let ghost before = out@;
            if let Some(mut value) = entry.value {
                let ghost v0 = value@;
                let found = value.remove(key.as_str());
                let k = match found {
                    Some(m) => m.into_store_input(),
                    None => None,
                };
                out.push(GetEntry { key: k, value: Some(value) });
                proof {
                    let next = with_values(all.subrange(0, n as int + 1));
                    assert(next =~= prev.push(entry.value.unwrap()));
                    assert forall|i: int| 0 <= i < out@.len() implies {
                        let (orig, rest) = split_original(next[i]@);
                        &&& (#[trigger] out@[i]).value matches Some(v) && v@ == rest && v.wf()
                        &&& match out@[i].key {
                            Some(k) => orig == k@ && k@ is Some,
                            None => orig is None,
                        }
                    } by {
                        if i < before.len() {
                            assert(out@[i] == before[i]);
                            assert(next[i] == prev[i]);
                        }
                    }
                }
            } else {
                proof {
                    let next = with_values(all.subrange(0, n as int + 1));
                    assert(next =~= prev);
                }
            }
            n = n + 1;
        }
        proof {
            assert(all.subrange(0, all.len() as int) =~= all);
        }
        out
    }

    /// Turns database (key, metadata) pairs into (original input, metadata)
    /// pairs, removing the reserved key from the metadata.
    pub fn store_key_val_to_store_input_val<K>(&self, output: Vec<(K, StoreValue)>) -> (res: Vec<
        (Option<StoreInput>, StoreValue),
    >)
        requires
            forall|i: int| 0 <= i < output@.len() ==> (#[trigger] output@[i]).1.wf(),
        ensures
            res@.len() == output@.len(),
            forall|i: int|
                0 <= i < res@.len() ==> {
                    let (orig, rest) = split_original(output@[i].1@);
                    &&& (#[trigger] res@[i]).1@ == rest
                    &&& res@[i].1.wf()
                    &&& match res@[i].0 {
                        Some(k) => orig == k@ && k@ is Some,
                        None => orig is None,
                    }
                },
    {
        let ghost all = output@;
        let mut rest = crate::seqs::reversed(output);
        let total = rest.len();
        let mut n: usize = 0;
        let mut out: Vec<(Option<StoreInput>, StoreValue)> = Vec::new();
        let key = reserved_meta_key_string();
        while rest.len() > 0
            invariant
                n + rest@.len() == all.len(),
                total == all.len(),
                key@ == reserved_meta_key(),
                forall|i: int| 0 <= i < rest@.len() ==> #[trigger] rest@[i] == all[all.len() - 1 - i],
                forall|i: int| 0 <= i < all.len() ==> (#[trigger] all[i]).1.wf(),
                out@.len() == n,
                forall|i: int|
                    0 <= i < n ==> {
                        let (orig, rest) = split_original(all[i].1@);
                        &&& (#[trigger] out@[i]).1@ == rest
                        &&& out@[i].1.wf()
                        &&& match out@[i].0 {
                            Some(k) => orig == k@ && k@ is Some,
                            None => orig is None,
                        }
                    },
            decreases rest@.len(),
        {
            let (_, mut value) = rest.pop().unwrap();
            assert(value == all[n as int].1);
            let found = value.remove(key.as_str());
            let k = match found {
                Some(m) => m.into_store_input(),
                None => None,
            };
            out.push((k, value));
            n = n + 1;
        }
        out
    }
}

/// A list of entries with distinct names, as many as the map holds and each in
/// the map, names every key of the map.
proof fn lemma_listed_entries_cover(s: Seq<(String, StoreEntry)>, m: Map<Seq<char>, StoreEntry>, k: Seq<char>)
    requires
        m.dom().finite(),
        s.len() == m.dom().len(),
        forall|i: int, j: int|
            0 <= i < s.len() && 0 <= j < s.len() && i != j ==> #[trigger] s[i].0@ != #[trigger] s[j].0@,
        forall|i: int| 0 <= i < s.len() ==> #[trigger] m.dom().contains(s[i].0@),
        m.dom().contains(k),
    ensures
        exists|j: int| 0 <= j < s.len() && #[trigger] s[j].0@ == k,
{
    if !(exists|j: int| 0 <= j < s.len() && #[trigger] s[j].0@ == k) {
        let names = Set::new(|x: Seq<char>| exists|j: int| 0 <= j < s.len() && #[trigger] s[j].0@ == x);
        let f = |i: int| s[i].0@;
        lemma_names_len(s, s.len() as int);
        assert(names.subset_of(m.dom().remove(k)));
        vstd::set_lib::lemma_len_subset(names, m.dom().remove(k));
    }
}

/// The names of the first `n` entries of a list with distinct names form a set of size `n`.
proof fn lemma_names_len(s: Seq<(String, StoreEntry)>, n: int)
    requires
        0 <= n <= s.len(),
        forall|i: int, j: int|
            0 <= i < s.len() && 0 <= j < s.len() && i != j ==> #[trigger] s[i].0@ != #[trigger] s[j].0@,
    ensures
        Set::new(|x: Seq<char>| exists|j: int| 0 <= j < n && #[trigger] s[j].0@ == x).finite(),
        Set::new(|x: Seq<char>| exists|j: int| 0 <= j < n && #[trigger] s[j].0@ == x).len() == n,
    decreases n,
{
    let names = Set::new(|x: Seq<char>| exists|j: int| 0 <= j < n && #[trigger] s[j].0@ == x);
    if n == 0 {
        assert(names =~= Set::empty());
    } else {
        lemma_names_len(s, n - 1);
        let prev = Set::new(|x: Seq<char>| exists|j: int| 0 <= j < n - 1 && #[trigger] s[j].0@ == x);
        assert(names =~= prev.insert(s[n - 1].0@)) by {
            assert forall|x: Seq<char>| names.contains(x) <==> #[trigger] prev.insert(s[n - 1].0@).contains(x) by {
                if names.contains(x) {
                    let j = choose|j: int| 0 <= j < n && #[trigger] s[j].0@ == x;
                    if j < n - 1 {
                        assert(prev.contains(x));
                    }
                }
                if x == s[n - 1].0@ {
                    assert(s[n - 1].0@ == x);
                }
                if prev.contains(x) {
                    let j = choose|j: int| 0 <= j < n - 1 && #[trigger] s[j].0@ == x;
                    assert(s[j].0@ == x);
                }
            }
        }
        assert(!prev.contains(s[n - 1].0@));
    }
}

/// What a store that keeps originals records with an entry gives back when
/// the entry is read: the original input, and the metadata as the client sent
/// it. A store that keeps no originals gives back no input and the metadata
/// unchanged.
pub proof fn law_original_input_round_trip(
    input: Option<ValueView>,
    value: Map<Seq<char>, Option<ValueView>>,
)
    requires
        !value.dom().contains(reserved_meta_key()),
    ensures
        split_original(prepared_value(input, value, true)) == (input, value),
        split_original(prepared_value(input, value, false)) == (None::<ValueView>, value),
{
    assert(value.insert(reserved_meta_key(), input).remove(reserved_meta_key()) =~= value);
    assert(value.remove(reserved_meta_key()) =~= value);
}

/// A store that was created is found under its name with the models and
/// setting it was created with, and the other stores are as they were.
pub proof fn law_created_store_is_found(
    stores: Map<Seq<char>, StoreEntry>,
    supported: Seq<SupportedModels>,
    name: Seq<char>,
    q: AiModel,
    i: AiModel,
    error_if_exists: bool,
    store_original: bool,
    other: Seq<char>,
)
    requires
        create_outcome(stores, supported, name, q, i, error_if_exists) == CreateOutcome::Created,
        other != name,
    ensures
        create_effect(stores, supported, name, q, i, error_if_exists, store_original).dom().contains(
            name,
        ),
        create_effect(stores, supported, name, q, i, error_if_exists, store_original)[name]
            == entry_of(q, i, store_original),
        create_effect(stores, supported, name, q, i, error_if_exists, store_original).dom().contains(
            other,
        ) == stores.dom().contains(other),
        stores.dom().contains(other) ==> create_effect(
            stores,
            supported,
            name,
            q,
            i,
            error_if_exists,
            store_original,
        )[other] == stores[other],
{
}

} // verus!
