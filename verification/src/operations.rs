//! What the proxy sends to the database for each request, and what it makes of
//! the database's replies. The requests themselves travel over the network in
//! the server; the decisions on both sides of each trip are here.
use vstd::prelude::*;
use itertools::Itertools;
use crate::errors::AIProxyError;
use crate::images::{decoded_image_dimensions, image_dimensions, image_dims_result};
use crate::keyed::{StrMap, str_equal};
use crate::keyval::{
    StoreInput, StoreInputValue, StoreName, StoreValue, MetadataValue, ValueView, reserved_meta_key,
    reserved_meta_key_string, one_to_many_index_meta_key, one_to_many_index_meta_key_string,
};
use crate::models::{AiModel, SupportedModels, embedding_size_of, spec_from_ai_model};
use crate::table::StoreEntry;
use crate::replication::CreateStore;
use crate::store::{
    AIStoreHandler, AiStoreInfo, DbStoreInfo, input_fault, fault_error, prepared_value, preprocess_outcome,
    first_fault_is,
};
use crate::text::{concat_str, decimal, decimal_string, text_le};

verus! {

/// The store creation the database is asked for.
#[derive(Debug)]
pub struct DbCreateStore {
    pub store: String,
    pub dimension: u32,
    pub create_predicates: Vec<String>,
    pub non_linear_indices: Vec<u64>,
    pub error_if_exists: bool,
}

/// A condition on the entries whose metadata under `key` is one of `values`.
#[derive(Debug)]
pub struct KeyInCondition {
    pub key: String,
    pub values: Vec<MetadataValue>,
}

/// One reply of a database pipeline: a `set` with its upsert counts, a
/// deletion, or anything else (including a missing reply).
#[derive(Debug)]
pub enum DbReply<U> {
    Upsert(U),
    Deleted,
    Other,
}

/// One input of a `set` request: the input to embed and its metadata, either
/// of which may be missing.
#[derive(Debug)]
pub struct SetInput {
    pub key: Option<StoreInput>,
    pub value: Option<StoreValue>,
}

/// The views of a list of strings.
pub open spec fn views_of(s: Seq<String>) -> Seq<Seq<char>> {
    s.map_values(|x: String| x@)
}

/// The strings of `s`, in order, except those in `excluded`.
pub open spec fn without(s: Seq<Seq<char>>, excluded: Set<Seq<char>>) -> Seq<Seq<char>>
    decreases s.len(),
{
    if s.len() == 0 {
        Seq::empty()
    } else if excluded.contains(s.last()) {
        without(s.drop_last(), excluded)
    } else {
        without(s.drop_last(), excluded).push(s.last())
    }
}

/// A copy of a list of strings.
pub fn copy_strings(v: &Vec<String>) -> (res: Vec<String>)
    ensures
        res@ == v@,
        views_of(res@) == views_of(v@),
{
    let mut out: Vec<String> = Vec::new();
    let mut i: usize = 0;
    while i < v.len()
        invariant
            0 <= i <= v@.len(),
            out@ == v@.subrange(0, i as int),
        decreases v@.len() - i,
    {
        out.push(v[i].clone());
        proof {
            assert(out@ =~= v@.subrange(0, i as int + 1));
        }
        i = i + 1;
    }
    assert(v@.subrange(0, v@.len() as int) =~= v@);
    out
}

/// A copy of a list of plain values.
pub fn copy_vec<T: Copy>(v: &Vec<T>) -> (res: Vec<T>)
    ensures
        res@ == v@,
{
    let mut out: Vec<T> = Vec::new();
    let mut i: usize = 0;
    while i < v.len()
        invariant
            0 <= i <= v@.len(),
            out@ == v@.subrange(0, i as int),
        decreases v@.len() - i,
    {
        out.push(v[i]);
        proof {
            assert(out@ =~= v@.subrange(0, i as int + 1));
        }
        i = i + 1;
    }
    assert(v@.subrange(0, v@.len() as int) =~= v@);
    out
}

/// The strings of `v`, in order, except those equal to `a` or to `b`.
pub fn strings_without(v: &Vec<String>, a: &str, b: &str) -> (res: Vec<String>)
    ensures
        views_of(res@) == without(views_of(v@), set![a@, b@]),
{
    let mut out: Vec<String> = Vec::new();
    let mut i: usize = 0;
    while i < v.len()
        invariant
            0 <= i <= v@.len(),
            views_of(out@) == without(views_of(v@.subrange(0, i as int)), set![a@, b@]),
        decreases v@.len() - i,
    {
        let ghost prev = views_of(v@.subrange(0, i as int));
        let ghost next = views_of(v@.subrange(0, i as int + 1));
        proof {
            assert(next.drop_last() =~= prev);
            assert(next.last() == v@[i as int]@);
        }
        let s = &v[i];
        if !str_equal(s.as_str(), a) && !str_equal(s.as_str(), b) {
            out.push(s.clone());
            proof {
                assert(views_of(out@) =~= without(prev, set![a@, b@]).push(v@[i as int]@));
            }
        }
        i = i + 1;
    }
    assert(v@.subrange(0, v@.len() as int) =~= v@);
    out
}

/// The predicates of an index drop, less the reserved key, which the proxy
/// keeps indexed for its own use.
pub fn without_reserved_predicates(predicates: &Vec<String>) -> (res: Vec<String>)
    ensures
        views_of(res@) == without(views_of(predicates@), set![reserved_meta_key()]),
{
    let key = reserved_meta_key_string();
    let res = strings_without(predicates, key.as_str(), key.as_str());
    assert(set![key@, key@] =~= set![reserved_meta_key()]);
    res
}

/// The store creation the database is asked for: the requested predicates,
/// with the reserved key added when the store keeps original inputs, and the
/// embedding size of the index model as the dimension.
pub fn create_store_db_params(params: &CreateStore) -> (res: DbCreateStore)
    ensures
        res.store@ == params.store@,
        res.dimension == embedding_size_of(spec_from_ai_model(params.index_model)),
        views_of(res.create_predicates@) == (if params.store_original {
            views_of(params.predicates@).push(reserved_meta_key())
        } else {
            views_of(params.predicates@)
        }),
        res.non_linear_indices@ == params.non_linear_indices@,
        res.error_if_exists == params.error_if_exists,
{
    let mut predicates = copy_strings(&params.predicates);
    if params.store_original {
        let ghost before = predicates@;
        predicates.push(reserved_meta_key_string());
        proof {
            assert(views_of(predicates@) =~= views_of(before).push(reserved_meta_key()));
        }
    }
    let size = SupportedModels::from_ai_model(&params.index_model).embedding_size();
    DbCreateStore {
        store: params.store.clone(),
        dimension: size as u32,
        create_predicates: predicates,
        non_linear_indices: copy_vec(&params.non_linear_indices),
        error_if_exists: params.error_if_exists,
    }
}

/// The value a request must carry (a model, a search input), or
/// `InputNotSpecified(what)` when it carries none.
pub fn required_value<M>(model: Option<M>, what: &str) -> (res: Result<M, AIProxyError>)
    ensures
        match model {
            Some(m) => res == Ok::<M, AIProxyError>(m),
            None => res matches Err(AIProxyError::InputNotSpecified(w)) && w@ == what@,
        },
{
    match model {
        Some(m) => Ok(m),
        None => Err(AIProxyError::InputNotSpecified(String::from_str(what))),
    }
}

/// The condition that selects entries by original input.
pub fn reserved_key_condition(values: Vec<MetadataValue>) -> (res: KeyInCondition)
    ensures
        res.key@ == reserved_meta_key(),
        res.values@ == values@,
{
    KeyInCondition { key: reserved_meta_key_string(), values }
}

/// The condition of a deletion by original inputs. Only a store that keeps
/// its original inputs can be asked for one, and every key must have a value.
pub fn del_key_condition(handler: &AIStoreHandler, store: &String, keys: &Vec<StoreInput>) -> (res:
    Result<KeyInCondition, AIProxyError>)
    ensures
        !handler.stores().dom().contains(store@) ==> (res matches Err(
            AIProxyError::StoreNotFound(n),
        ) && n@ == store@),
        handler.stores().dom().contains(store@) && !handler.stores()[store@].store_original ==> res
            == Err::<KeyInCondition, AIProxyError>(AIProxyError::DelKeyError),
        handler.stores().dom().contains(store@) && handler.stores()[store@].store_original ==> {
            if exists|i: int| 0 <= i < keys@.len() && (#[trigger] keys@[i])@ is None {
                res matches Err(AIProxyError::InputNotSpecified(m)) && m@ == "Store Input Value"@
            } else {
                res matches Ok(c) && c.key@ == reserved_meta_key() && c.values@.len()
                    == keys@.len() && forall|i: int|
                    0 <= i < keys@.len() ==> (#[trigger] c.values@[i])@ == keys@[i]@
            }
        },
{
    let store_original = match handler.store_original(
        StoreName { value: store.clone() },
    ) {
        Ok(b) => b,
        Err(e) => {
            return Err(e);
        },
    };
    if !store_original {
        return Err(AIProxyError::DelKeyError);
    }
    let mut values: Vec<MetadataValue> = Vec::new();
    let mut i: usize = 0;
    while i < keys.len()
        invariant
            0 <= i <= keys@.len(),
            handler.stores().dom().contains(store@),
            handler.stores()[store@].store_original,
            values@.len() == i,
            forall|j: int| 0 <= j < i ==> (#[trigger] values@[j])@ == keys@[j]@ && keys@[j]@ is Some,
        decreases keys@.len() - i,
    {
        match keys[i].to_metadata() {
            Some(m) => values.push(m),
            None => {
                assert(keys@[i as int]@ is None);
                return Err(AIProxyError::InputNotSpecified(String::from_str("Store Input Value")));
            },
        }
        i = i + 1;
    }
    proof {
        assert forall|j: int| 0 <= j < keys@.len() implies (#[trigger] keys@[j])@ is Some by {
            assert(values@[j]@ == keys@[j]@);
        }
    }
    Ok(reserved_key_condition(values))
}

/// The inputs, in order, that have a value.
pub open spec fn present_inputs(s: Seq<Option<ValueView>>) -> Seq<Option<ValueView>>
    decreases s.len(),
{
    if s.len() == 0 {
        Seq::empty()
    } else if s.last() is Some {
        present_inputs(s.drop_last()).push(s.last())
    } else {
        present_inputs(s.drop_last())
    }
}

/// The condition of a lookup by original inputs: the keys that have a value,
/// in order; the others select nothing and are passed over.
pub fn get_key_condition(keys: &Vec<StoreInput>) -> (res: KeyInCondition)
    ensures
        res.key@ == reserved_meta_key(),
        res.values@.map_values(|m: MetadataValue| m@) == present_inputs(input_views(keys@)),
{
    let mut values: Vec<MetadataValue> = Vec::new();
    let mut i: usize = 0;
    while i < keys.len()
        invariant
            0 <= i <= keys@.len(),
            values@.map_values(|m: MetadataValue| m@) == present_inputs(
                input_views(keys@.subrange(0, i as int)),
            ),
        decreases keys@.len() - i,
    {
        proof {
            assert(input_views(keys@.subrange(0, i as int + 1)).drop_last() =~= input_views(
                keys@.subrange(0, i as int),
            ));
            assert(input_views(keys@.subrange(0, i as int + 1)).last() == keys@[i as int]@);
        }
        let ghost before = values@;
        match keys[i].to_metadata() {
            Some(m) => {
                values.push(m);
                proof {
                    assert(values@.map_values(|m: MetadataValue| m@) =~= before.map_values(
                        |m: MetadataValue| m@,
                    ).push(keys@[i as int]@));
                }
            },
            None => {},
        }
        i = i + 1;
    }
    proof {
        assert(keys@.subrange(0, keys@.len() as int) =~= keys@);
    }
    reserved_key_condition(values)
}

/// The upsert counts that the replies of a `set` pipeline give: the pipeline
/// is a `set`, or a deletion followed by a `set`.
pub open spec fn set_reply_upsert<U>(replies: Seq<DbReply<U>>) -> Option<U> {
    if replies.len() == 1 && replies[0] is Upsert {
        Some(replies[0]->Upsert_0)
    } else if replies.len() == 2 && replies[0] is Deleted && replies[1] is Upsert {
        Some(replies[1]->Upsert_0)
    } else {
        None
    }
}

/// The result of a `set` from the database's replies; any other shape of
/// replies is `UnexpectedDBResponse` with the replies as the caller rendered them.
pub fn interpret_set_replies<U: Copy>(replies: &Vec<DbReply<U>>, rendered: String) -> (res: Result<
    U,
    AIProxyError,
>)
    ensures
        match set_reply_upsert(replies@) {
            Some(u) => res == Ok::<U, AIProxyError>(u),
            None => res == Err::<U, AIProxyError>(AIProxyError::UnexpectedDBResponse(rendered)),
        },
{
    if replies.len() == 1 {
        if let DbReply::Upsert(u) = &replies[0] {
            return Ok(*u);
        }
    }
    if replies.len() == 2 {
        if let DbReply::Deleted = &replies[0] {
            if let DbReply::Upsert(u) = &replies[1] {
                return Ok(*u);
            }
        }
    }
    Err(AIProxyError::UnexpectedDBResponse(rendered))
}

/// The (input, metadata) pairs of a `set` request: inputs without a key are
/// left out, and missing metadata is empty.
pub open spec fn set_pairs(s: Seq<SetInput>) -> Seq<(Option<ValueView>, Map<Seq<char>, Option<ValueView>>)>
    decreases s.len(),
{
    if s.len() == 0 {
        Seq::empty()
    } else {
        let prev = set_pairs(s.drop_last());
        match s.last().key {
            Some(k) => prev.push(
                (
                    k@,
                    match s.last().value {
                        Some(v) => v@,
                        None => Map::empty(),
                    },
                ),
            ),
            None => prev,
        }
    }
}

/// The metadata of a `set` input is well formed when present.
pub open spec fn set_input_wf(i: SetInput) -> bool {
    match i.value {
        Some(v) => v.wf(),
        None => true,
    }
}

/// The (input, metadata) pairs of a `set` request.
pub fn set_inputs(inputs: Vec<SetInput>) -> (res: Vec<(StoreInput, StoreValue)>)
    requires
        forall|i: int| 0 <= i < inputs@.len() ==> set_input_wf(#[trigger] inputs@[i]),
    ensures
        res@.len() == set_pairs(inputs@).len(),
        forall|k: int|
            0 <= k < res@.len() ==> (#[trigger] res@[k]).0@ == set_pairs(inputs@)[k].0 && res@[k].1@
                == set_pairs(inputs@)[k].1 && res@[k].1.wf(),
{
    let ghost all = inputs@;
    let mut rest = crate::seqs::reversed(inputs);
    let total = rest.len();
    let mut n: usize = 0;
    let mut out: Vec<(StoreInput, StoreValue)> = Vec::new();
    while rest.len() > 0
        invariant
            n + rest@.len() == all.len(),
            total == all.len(),
            forall|i: int| 0 <= i < rest@.len() ==> #[trigger] rest@[i] == all[all.len() - 1 - i],
            forall|i: int| 0 <= i < all.len() ==> set_input_wf(#[trigger] all[i]),
            out@.len() == set_pairs(all.subrange(0, n as int)).len(),
            forall|k: int|
                0 <= k < out@.len() ==> (#[trigger] out@[k]).0@ == set_pairs(all.subrange(0, n as int))[k].0
                    && out@[k].1@ == set_pairs(all.subrange(0, n as int))[k].1 && out@[k].1.wf(),
        decreases rest@.len(),
    {
        let item = rest.pop().unwrap();
        proof {
            assert(all.subrange(0, n as int + 1).drop_last() =~= all.subrange(0, n as int));
            assert(item == all[n as int]);
            assert(set_input_wf(all[n as int]));
        }
        let ghost before = out@;
        let SetInput { key, value } = item;
        match key {
            Some(k) => {
                let v = match value {
                    Some(v) => v,
                    None => StoreValue::new(),
                };
                out.push((k, v));
                proof {
                    assert forall|j: int| 0 <= j < out@.len() implies (#[trigger] out@[j]).0@
                        == set_pairs(all.subrange(0, n as int + 1))[j].0 && out@[j].1@ == set_pairs(
                        all.subrange(0, n as int + 1),
                    )[j].1 && out@[j].1.wf() by {
                        if j < before.len() {
                            assert(out@[j] == before[j]);
                        }
                    }
                }
            },
            None => {},
        }
        n = n + 1;
    }
    proof {
        assert(all.subrange(0, all.len() as int) =~= all);
    }
    out
}

/// The views of a list of inputs.
pub open spec fn input_views(s: Seq<StoreInput>) -> Seq<Option<ValueView>> {
    s.map_values(|i: StoreInput| i@)
}

/// The views of a table of parameters.
pub open spec fn param_views(m: Map<Seq<char>, String>) -> Map<Seq<char>, Seq<char>> {
    m.map_values(|v: String| v@)
}

/// The parameters after recording the size of each image input that decodes:
/// `orig_width_{i}` and `orig_height_{i}` for the `i`-th input, in decimal.
pub open spec fn with_image_dimensions(
    inputs: Seq<Option<ValueView>>,
    params: Map<Seq<char>, Seq<char>>,
) -> Map<Seq<char>, Seq<char>>
    decreases inputs.len(),
{
    if inputs.len() == 0 {
        params
    } else {
        let prev = with_image_dimensions(inputs.drop_last(), params);
        let idx = (inputs.len() - 1) as nat;
        match inputs.last() {
            Some(ValueView::Image(b)) => match image_dims_result(decoded_image_dimensions(b)) {
                Ok((w, h)) => prev.insert("orig_width_"@ + decimal(idx), decimal(w as nat)).insert(
                    "orig_height_"@ + decimal(idx),
                    decimal(h as nat),
                ),
                Err(_) => prev,
            },
            _ => prev,
        }
    }
}

/// Records the original size of each image input in the model parameters, so
/// that a face model can map its boxes back onto the original picture.
/// Inputs that are not images, or do not decode, are passed over.
pub fn extract_and_inject_image_dimensions(inputs: &Vec<StoreInput>, model_params: &mut StrMap<String>)
    requires
        old(model_params).wf(),
    ensures
        final(model_params).wf(),
        param_views(final(model_params)@) == with_image_dimensions(
            input_views(inputs@),
            param_views(old(model_params)@),
        ),
{
    let mut i: usize = 0;
    while i < inputs.len()
        invariant
            0 <= i <= inputs@.len(),
            model_params.wf(),
            param_views(model_params@) == with_image_dimensions(
                input_views(inputs@.subrange(0, i as int)),
                param_views(old(model_params)@),
            ),
        decreases inputs@.len() - i,
    {
        let ghost prev = param_views(model_params@);
        proof {
            assert(input_views(inputs@.subrange(0, i as int + 1)).drop_last() =~= input_views(
                inputs@.subrange(0, i as int),
            ));
            assert(input_views(inputs@.subrange(0, i as int + 1)).last() == inputs@[i as int]@);
        }
        match &inputs[i].value {
            Some(StoreInputValue::Image(bytes)) => {
                match image_dimensions(bytes) {
                    Ok((w, h)) => {
                        let idx = decimal_string(i);
                        let wk = concat_str("orig_width_", idx.as_str());
                        let hk = concat_str("orig_height_", idx.as_str());
                        let ghost wkv = wk@;
                        let ghost hkv = hk@;
                        let wv = decimal_string(w);
                        let hv = decimal_string(h);
                        let ghost wvv = wv@;
                        let ghost hvv = hv@;
                        let ghost m0 = model_params@;
                        model_params.insert(wk, wv);
                        let ghost m1 = model_params@;
                        model_params.insert(hk, hv);
                        proof {
                            reveal_strlit("orig_width_");
                            reveal_strlit("orig_height_");
                            assert(param_views(m1) =~= param_views(m0).insert(wkv, wvv));
                            assert(param_views(model_params@) =~= param_views(m1).insert(hkv, hvv));
                        }
                    },
                    Err(_) => {},
                }
            },
            _ => {},
        }
        i = i + 1;
    }
    proof {
        assert(inputs@.subrange(0, inputs@.len() as int) =~= inputs@);
    }
}

/// `itertools::Itertools::sorted_by_key` keyed by a copy of each store's
/// name: the same stores, ordered by name as `String` orders (byte by byte
/// of the UTF-8 text, which is code point by code point). The sort is stable.
#[verifier::external_body]
fn sorted_by_name(stores: Vec<AiStoreInfo>) -> (res: Vec<AiStoreInfo>)
    ensures
        res@.to_multiset() == stores@.to_multiset(),
        forall|i: int, j: int| 0 <= i < j < res@.len() ==> text_le(res@[i].name@, res@[j].name@),
{
    stores.into_iter().sorted_by_key(|s| s.name.clone()).collect()
}

/// What the database reports, by store name; a later report of a name
/// replaces an earlier one.
pub open spec fn db_by_name(db: Seq<DbStoreInfo>) -> Map<Seq<char>, DbStoreInfo>
    decreases db.len(),
{
    if db.len() == 0 {
        Map::empty()
    } else {
        db_by_name(db.drop_last()).insert(db.last().name@, db.last())
    }
}

/// The database reports of an optional listing, by store name.
pub open spec fn db_map_of(db: Option<Vec<DbStoreInfo>>) -> Map<Seq<char>, DbStoreInfo> {
    match db {
        Some(v) => db_by_name(v@),
        None => Map::empty(),
    }
}

/// The predicates that the proxy keeps for itself and does not show.
pub open spec fn hidden_predicates() -> Set<Seq<char>> {
    set![reserved_meta_key(), one_to_many_index_meta_key()]
}

/// `out` is the store `info` with what the database reports of it: the
/// reported predicates less the hidden ones, and a copy of the report. A store
/// the database does not report is left as it was.
pub open spec fn merged_with_db(info: AiStoreInfo, db: Map<Seq<char>, DbStoreInfo>, out: AiStoreInfo) -> bool {
    &&& out.name@ == info.name@
    &&& out.query_model == info.query_model
    &&& out.index_model == info.index_model
    &&& out.embedding_size == info.embedding_size
    &&& if db.dom().contains(info.name@) {
        &&& views_of(out.predicate_indices@) == without(
            views_of(db[info.name@].predicate_indices@),
            hidden_predicates(),
        )
        &&& out.db_info matches Some(d) && d.name@ == db[info.name@].name@ && views_of(
            d.predicate_indices@,
        ) == views_of(db[info.name@].predicate_indices@)
    } else {
        &&& out.predicate_indices@ == info.predicate_indices@
        &&& out.db_info == info.db_info
    }
}

/// The database reports, by name.
fn db_table(db: Vec<DbStoreInfo>) -> (res: StrMap<DbStoreInfo>)
    ensures
        res.wf(),
        res@ == db_by_name(db@),
{
    let ghost all = db@;
    let mut rest = crate::seqs::reversed(db);
    let total = rest.len();
    let mut n: usize = 0;
    let mut table: StrMap<DbStoreInfo> = StrMap::new();
    while rest.len() > 0
        invariant
            n + rest@.len() == all.len(),
            total == all.len(),
            forall|i: int| 0 <= i < rest@.len() ==> #[trigger] rest@[i] == all[all.len() - 1 - i],
            table.wf(),
            table@ == db_by_name(all.subrange(0, n as int)),
        decreases rest@.len(),
    {
        let info = rest.pop().unwrap();
        proof {
            assert(all.subrange(0, n as int + 1).drop_last() =~= all.subrange(0, n as int));
            assert(info == all[n as int]);
        }
        table.insert(info.name.clone(), info);
        n = n + 1;
    }
    proof {
        assert(all.subrange(0, all.len() as int) =~= all);
    }
    table
}

/// A store with what the database reports of it, if anything.
fn merge_one(info: AiStoreInfo, db: &Option<StrMap<DbStoreInfo>>) -> (res: AiStoreInfo)
    requires
        db matches Some(t) ==> t.wf(),
    ensures
        merged_with_db(
            info,
            match db {
                Some(t) => t@,
                None => Map::empty(),
            },
            res,
        ),
{
    match db {
        Some(table) => match table.get(info.name.as_str()) {
            Some(d) => {
                let key = reserved_meta_key_string();
                let many = one_to_many_index_meta_key_string();
                let shown = strings_without(&d.predicate_indices, key.as_str(), many.as_str());
                let copy = DbStoreInfo {
                    name: d.name.clone(),
                    predicate_indices: copy_strings(&d.predicate_indices),
                };
                AiStoreInfo {
                    name: info.name,
                    query_model: info.query_model,
                    index_model: info.index_model,
                    embedding_size: info.embedding_size,
                    predicate_indices: shown,
                    db_info: Some(copy),
                }
            },
            None => info,
        },
        None => info,
    }
}

/// `res` lists the stores, ordered by name, each once, with what the database
/// reports of it in `db` when there is a report: its predicates, less those
/// the proxy keeps for itself, and the report itself.
pub open spec fn is_merged_listing(
    stores: Map<Seq<char>, StoreEntry>,
    db: Map<Seq<char>, DbStoreInfo>,
    res: Seq<AiStoreInfo>,
) -> bool {
    &&& res.len() == stores.dom().len()
    &&& forall|i: int, j: int| 0 <= i < j < res.len() ==> text_le(res[i].name@, res[j].name@)
    &&& forall|i: int, j: int|
        0 <= i < res.len() && 0 <= j < res.len() && i != j ==> #[trigger] res[i].name@
            != #[trigger] res[j].name@
    &&& forall|n: Seq<char>|
        stores.dom().contains(n) ==> exists|i: int| 0 <= i < res.len() && #[trigger] res[i].name@ == n
    &&& forall|i: int|
        0 <= i < res.len() ==> {
            let out = #[trigger] res[i];
            let n = out.name@;
            &&& stores.dom().contains(n)
            &&& out.query_model == stores[n].query_model
            &&& out.index_model == stores[n].index_model
            &&& out.embedding_size == embedding_size_of(spec_from_ai_model(out.index_model))
            &&& if db.dom().contains(n) {
                &&& views_of(out.predicate_indices@) == without(
                    views_of(db[n].predicate_indices@),
                    hidden_predicates(),
                )
                &&& out.db_info matches Some(d) && d.name@ == db[n].name@ && views_of(
                    d.predicate_indices@,
                ) == views_of(db[n].predicate_indices@)
            } else {
                &&& out.predicate_indices@.len() == 0
                &&& out.db_info is None
            }
        }
}

/// The stores, ordered by name, each with what the database reports of it
/// when the database's listing is at hand: its predicates, less those the
/// proxy keeps for itself, and the report itself.
pub fn list_stores_merged(handler: &AIStoreHandler, db_stores: Option<Vec<DbStoreInfo>>) -> (res: Vec<
    AiStoreInfo,
>)
    requires
        handler.wf(),
    ensures
        res@.len() == handler.stores().dom().len(),
        forall|i: int, j: int| 0 <= i < j < res@.len() ==> text_le(res@[i].name@, res@[j].name@),
        forall|i: int, j: int|
            0 <= i < res@.len() && 0 <= j < res@.len() && i != j ==> #[trigger] res@[i].name@
                != #[trigger] res@[j].name@,
        forall|n: Seq<char>|
            handler.stores().dom().contains(n) ==> exists|i: int|
                0 <= i < res@.len() && #[trigger] res@[i].name@ == n,
        forall|i: int|
            0 <= i < res@.len() ==> {
                let out = #[trigger] res@[i];
                let n = out.name@;
                let db = db_map_of(db_stores);
                &&& handler.stores().dom().contains(n)
                &&& out.query_model == handler.stores()[n].query_model
                &&& out.index_model == handler.stores()[n].index_model
                &&& out.embedding_size == embedding_size_of(spec_from_ai_model(out.index_model))
                &&& if db.dom().contains(n) {
                    &&& views_of(out.predicate_indices@) == without(
                        views_of(db[n].predicate_indices@),
                        hidden_predicates(),
                    )
                    &&& out.db_info matches Some(d) && d.name@ == db[n].name@ && views_of(
                        d.predicate_indices@,
                    ) == views_of(db[n].predicate_indices@)
                } else {
                    &&& out.predicate_indices@.len() == 0
                    &&& out.db_info is None
                }
            },
        is_merged_listing(handler.stores(), db_map_of(db_stores), res@),
{
    let listed = handler.list_stores();
    let ghost lst = listed@;
    let sorted = sorted_by_name(listed);
    let ghost srt = sorted@;
    proof {
        broadcast use vstd::seq_lib::group_to_multiset_ensures;

        assert(srt.len() == srt.to_multiset().len());
        assert(lst.len() == lst.to_multiset().len());
        assert forall|i: int| 0 <= i < srt.len() implies lst.contains(#[trigger] srt[i]) by {
            assert(srt.contains(srt[i]));
            assert(srt.to_multiset().count(srt[i]) > 0);
        }
        assert(lst.no_duplicates()) by {
            assert forall|i: int, j: int|
                0 <= i < lst.len() && 0 <= j < lst.len() && i != j implies lst[i] != lst[j] by {
                assert(lst[i].name@ != lst[j].name@);
            }
        }
        lst.lemma_multiset_has_no_duplicates();
        srt.lemma_multiset_has_no_duplicates_conv();
        assert forall|n: Seq<char>| handler.stores().dom().contains(n) implies exists|i: int|
            0 <= i < srt.len() && #[trigger] srt[i].name@ == n by {
            let p = choose|p: int| 0 <= p < lst.len() && #[trigger] lst[p].name@ == n;
            assert(lst.contains(lst[p]));
            assert(lst.to_multiset().count(lst[p]) > 0);
            assert(srt.contains(lst[p]));
            let q = choose|q: int| 0 <= q < srt.len() && srt[q] == lst[p];
            assert(srt[q].name@ == n);
        }
        assert forall|i: int, j: int|
            0 <= i < srt.len() && 0 <= j < srt.len() && i != j implies #[trigger] srt[i].name@
            != #[trigger] srt[j].name@ by {
            assert(lst.contains(srt[i]));
            assert(lst.contains(srt[j]));
            let p = choose|p: int| 0 <= p < lst.len() && lst[p] == srt[i];
            let q = choose|q: int| 0 <= q < lst.len() && lst[q] == srt[j];
            assert(srt[i] != srt[j]);
            assert(p != q);
        }
    }
    let table = match db_stores {
        Some(v) => Some(db_table(v)),
        None => None,
    };
    let ghost dbm = match &table {
        Some(t) => t@,
        None => Map::<Seq<char>, DbStoreInfo>::empty(),
    };
    let mut rest = crate::seqs::reversed(sorted);
    let total = rest.len();
    let mut n: usize = 0;
    let mut out: Vec<AiStoreInfo> = Vec::new();
    while rest.len() > 0
        invariant
            n + rest@.len() == srt.len(),
            total == srt.len(),
            forall|i: int| 0 <= i < rest@.len() ==> #[trigger] rest@[i] == srt[srt.len() - 1 - i],
            (&table) matches Some(t) ==> t.wf(),
            dbm == match &table {
                Some(t) => t@,
                None => Map::<Seq<char>, DbStoreInfo>::empty(),
            },
            out@.len() == n,
            forall|j: int| 0 <= j < n ==> merged_with_db(srt[j], dbm, #[trigger] out@[j]),
        decreases rest@.len(),
    {
        let info = rest.pop().unwrap();
        assert(info == srt[n as int]);
        let merged = merge_one(info, &table);
        out.push(merged);
        n = n + 1;
    }
    proof {
        assert(dbm == db_map_of(db_stores));
        assert forall|i: int| 0 <= i < out@.len() implies lst.contains(srt[i]) && merged_with_db(
            srt[i],
            dbm,
            #[trigger] out@[i],
        ) by {}
        assert forall|i: int| 0 <= i < out@.len() implies handler.stores().dom().contains(
            (#[trigger] out@[i]).name@,
        ) by {
            let p = choose|p: int| 0 <= p < lst.len() && lst[p] == srt[i];
        }
        assert forall|nm: Seq<char>| handler.stores().dom().contains(nm) implies exists|i: int|
            0 <= i < out@.len() && #[trigger] out@[i].name@ == nm by {
            let i = choose|i: int| 0 <= i < srt.len() && #[trigger] srt[i].name@ == nm;
            assert(out@[i].name@ == nm);
        }
    }
    out
}

/// An entry of a similarity search as the database returns it.
#[derive(Debug)]
pub struct DbSimEntry<K, S> {
    pub key: Option<K>,
    pub value: Option<StoreValue>,
    pub similarity: Option<S>,
}

/// An entry of a similarity search as returned to clients: the original
/// input, if kept, the metadata and the similarity.
#[derive(Debug)]
pub struct SimNEntry<S> {
    pub key: Option<StoreInput>,
    pub value: Option<StoreValue>,
    pub similarity: Option<S>,
}

/// The entries that have a key, metadata and a similarity, in order.
pub open spec fn complete_entries<K, S>(s: Seq<DbSimEntry<K, S>>) -> Seq<(K, StoreValue, S)>
    decreases s.len(),
{
    if s.len() == 0 {
        Seq::empty()
    } else {
        let prev = complete_entries(s.drop_last());
        match (s.last().key, s.last().value, s.last().similarity) {
            (Some(k), Some(v), Some(sim)) => prev.push((k, v, sim)),
            _ => prev,
        }
    }
}

/// The metadata of a search entry is well formed when present.
pub open spec fn sim_entry_wf<K, S>(e: DbSimEntry<K, S>) -> bool {
    match e.value {
        Some(v) => v.wf(),
        None => true,
    }
}

/// The answer to a similarity search: each entry the database returned with a
/// key, metadata and a similarity, in order, with its original input taken
/// out of the metadata. Incomplete entries are dropped.
pub fn sim_n_entries<K, S>(handler: &AIStoreHandler, entries: Vec<DbSimEntry<K, S>>) -> (res: Vec<
    SimNEntry<S>,
>)
    requires
        forall|i: int| 0 <= i < entries@.len() ==> sim_entry_wf(#[trigger] entries@[i]),
    ensures
        res@.len() == complete_entries(entries@).len(),
        forall|i: int|
            0 <= i < res@.len() ==> {
                let c = complete_entries(entries@)[i];
                let (orig, rest) = crate::store::split_original(c.1@);
                &&& (#[trigger] res@[i]).value matches Some(v) && v@ == rest && v.wf()
                &&& res@[i].similarity == Some(c.2)
                &&& match res@[i].key {
                    Some(k) => orig == k@ && k@ is Some,
                    None => orig is None,
                }
            },
{
    let ghost all = entries@;
    let mut rest = crate::seqs::reversed(entries);
    let total = rest.len();
    let mut n: usize = 0;
    let mut pairs: Vec<(K, StoreValue)> = Vec::new();
    let mut sims: Vec<S> = Vec::new();
    while rest.len() > 0
        invariant
            n + rest@.len() == all.len(),
            total == all.len(),
            forall|i: int| 0 <= i < rest@.len() ==> #[trigger] rest@[i] == all[all.len() - 1 - i],
            forall|i: int| 0 <= i < all.len() ==> sim_entry_wf(#[trigger] all[i]),
            pairs@.len() == complete_entries(all.subrange(0, n as int)).len(),
            sims@.len() == pairs@.len(),
            forall|k: int|
                0 <= k < sims@.len() ==> #[trigger] sims@[k] == complete_entries(
                    all.subrange(0, n as int),
                )[k].2,
            forall|k: int|
                0 <= k < pairs@.len() ==> (#[trigger] pairs@[k]).1 == complete_entries(
                    all.subrange(0, n as int),
                )[k].1 && pairs@[k].1.wf() && sims@[k] == complete_entries(
                    all.subrange(0, n as int),
                )[k].2,
        decreases rest@.len(),
    {
        let entry = rest.pop().unwrap();
        proof {
            assert(all.subrange(0, n as int + 1).drop_last() =~= all.subrange(0, n as int));
            assert(entry == all[n as int]);
            assert(sim_entry_wf(all[n as int]));
        }
        let ghost before_p = pairs@;
        let ghost before_s = sims@;
        let DbSimEntry { key, value, similarity } = entry;
        match (key, value, similarity) {
            (Some(k), Some(v), Some(sim)) => {
                pairs.push((k, v));
                sims.push(sim);
                proof {
                    assert forall|j: int| 0 <= j < pairs@.len() implies (#[trigger] pairs@[j]).1
                        == complete_entries(all.subrange(0, n as int + 1))[j].1 && pairs@[j].1.wf()
                        && sims@[j] == complete_entries(all.subrange(0, n as int + 1))[j].2 by {
                        if j < before_p.len() {
                            assert(pairs@[j] == before_p[j]);
                            assert(sims@[j] == before_s[j]);
                        }
                    }
                }
            },
            _ => {},
        }
        n = n + 1;
    }
    proof {
        assert(all.subrange(0, all.len() as int) =~= all);
    }
    let ghost comp = complete_entries(all);
    let converted = handler.store_key_val_to_store_input_val(pairs);
    let ghost conv = converted@;
    let total_c = converted.len();
    let mut rest_c = crate::seqs::reversed(converted);
    let mut rest_s = crate::seqs::reversed(sims);
    let ghost all_s = rest_s@.reverse();
    let mut out: Vec<SimNEntry<S>> = Vec::new();
    let mut m: usize = 0;
    while rest_c.len() > 0
        invariant
            m + rest_c@.len() == conv.len(),
            total_c == conv.len(),
            rest_s@.len() == rest_c@.len(),
            conv.len() == comp.len(),
            forall|i: int| 0 <= i < rest_c@.len() ==> #[trigger] rest_c@[i] == conv[conv.len() - 1 - i],
            forall|i: int|
                0 <= i < rest_s@.len() ==> #[trigger] rest_s@[i] == comp[comp.len() - 1 - i].2,
            forall|i: int|
                0 <= i < conv.len() ==> {
                    let (orig, r) = crate::store::split_original(comp[i].1@);
                    &&& (#[trigger] conv[i]).1@ == r
                    &&& conv[i].1.wf()
                    &&& match conv[i].0 {
                        Some(k) => orig == k@ && k@ is Some,
                        None => orig is None,
                    }
                },
            out@.len() == m,
            forall|i: int|
                0 <= i < m ==> {
                    let (orig, r) = crate::store::split_original(comp[i].1@);
                    &&& (#[trigger] out@[i]).value matches Some(v) && v@ == r && v.wf()
                    &&& out@[i].similarity == Some(comp[i].2)
                    &&& match out@[i].key {
                        Some(k) => orig == k@ && k@ is Some,
                        None => orig is None,
                    }
                },
        decreases rest_c@.len(),
    {
        let (key, value) = rest_c.pop().unwrap();
        let sim = rest_s.pop().unwrap();
        assert(conv[m as int] == (key, value));
        out.push(SimNEntry { key, value: Some(value), similarity: Some(sim) });
        m = m + 1;
    }
    out
}

/// What a `set` runs the index model on: the prepared inputs, their
/// metadata, and the model parameters with the image sizes recorded; and,
/// when the store keeps its original inputs, those inputs, whose earlier
/// entries the database is asked to delete before the new ones are set.
#[derive(Debug)]
pub struct SetPlan {
    pub index_model: AiModel,
    pub inputs: Vec<StoreInput>,
    pub values: Vec<StoreValue>,
    pub model_params: StrMap<String>,
    pub replaced: Option<Vec<MetadataValue>>,
}

/// `x` is the input of some (input, metadata) pair.
pub open spec fn has_pair_input(
    pairs: Seq<(Option<ValueView>, Map<Seq<char>, Option<ValueView>>)>,
    x: Option<ValueView>,
) -> bool {
    exists|i: int| 0 <= i < pairs.len() && #[trigger] pairs[i].0 == x
}

/// `list` holds each input of the pairs once, and nothing else.
pub open spec fn lists_pair_inputs(
    list: Seq<MetadataValue>,
    pairs: Seq<(Option<ValueView>, Map<Seq<char>, Option<ValueView>>)>,
) -> bool {
    &&& crate::store::distinct_views(list)
    &&& forall|x: Option<ValueView>| #[trigger] crate::store::has_view(list, x) <==> has_pair_input(pairs, x)
}

/// The `k`-th (input, metadata) pair is the first that cannot be stored, and
/// `e` reports why.
pub open spec fn first_bad_pair(
    index_model: AiModel,
    pairs: Seq<(Option<ValueView>, Map<Seq<char>, Option<ValueView>>)>,
    store_original: bool,
    k: int,
    e: AIProxyError,
) -> bool {
    &&& 0 <= k < pairs.len()
    &&& forall|i: int|
        0 <= i < k ==> input_fault(index_model, #[trigger] pairs[i].0, pairs[i].1, store_original) is None
    &&& input_fault(index_model, pairs[k].0, pairs[k].1, store_original) matches Some(f)
        && fault_error(index_model, f, e)
}

/// Two lists of set inputs hold the same inputs and metadata, position by
/// position.
pub open spec fn same_set_inputs(a: Seq<SetInput>, b: Seq<SetInput>) -> bool {
    &&& a.len() == b.len()
    &&& forall|i: int|
        0 <= i < a.len() ==> {
            &&& (#[trigger] a[i]).key is Some == b[i].key is Some
            &&& a[i].key is Some ==> a[i].key->0@ == b[i].key->0@
            &&& a[i].value is Some == b[i].value is Some
            &&& a[i].value is Some ==> a[i].value->0@ == b[i].value->0@
        }
}

proof fn lemma_same_set_pairs(a: Seq<SetInput>, b: Seq<SetInput>)
    requires
        same_set_inputs(a, b),
    ensures
        set_pairs(a) == set_pairs(b),
    decreases a.len(),
{
    if a.len() > 0 {
        let (ta, tb) = (a.drop_last(), b.drop_last());
        assert(same_set_inputs(ta, tb)) by {
            assert forall|i: int| 0 <= i < ta.len() implies {
                &&& (#[trigger] ta[i]).key is Some == tb[i].key is Some
                &&& ta[i].key is Some ==> ta[i].key->0@ == tb[i].key->0@
                &&& ta[i].value is Some == tb[i].value is Some
                &&& ta[i].value is Some ==> ta[i].value->0@ == tb[i].value->0@
            } by {
                assert(ta[i] == a[i] && tb[i] == b[i]);
            }
        }
        lemma_same_set_pairs(ta, tb);
        assert(a.last() == a[a.len() - 1]);
        assert(b.last() == b[a.len() - 1]);
    }
}

/// A copy of the inputs of a `set`.
pub fn copy_set_inputs(inputs: &Vec<SetInput>) -> (res: Vec<SetInput>)
    requires
        forall|i: int| 0 <= i < inputs@.len() ==> set_input_wf(#[trigger] inputs@[i]),
    ensures
        set_pairs(res@) == set_pairs(inputs@),
        forall|i: int| 0 <= i < res@.len() ==> set_input_wf(#[trigger] res@[i]),
{
    let mut out: Vec<SetInput> = Vec::new();
    let mut i: usize = 0;
    while i < inputs.len()
        invariant
            0 <= i <= inputs@.len(),
            forall|j: int| 0 <= j < inputs@.len() ==> set_input_wf(#[trigger] inputs@[j]),
            same_set_inputs(out@, inputs@.subrange(0, i as int)),
            forall|j: int| 0 <= j < out@.len() ==> set_input_wf(#[trigger] out@[j]),
        decreases inputs@.len() - i,
    {
        let item = &inputs[i];
        let key = match &item.key {
            Some(k) => Some(k.duplicate()),
            None => None,
        };
        let value = match &item.value {
            Some(v) => {
                assert(set_input_wf(inputs@[i as int]));
                Some(v.duplicate())
            },
            None => None,
        };
        let ghost before = out@;
        out.push(SetInput { key, value });
        proof {
            let sub = inputs@.subrange(0, i as int + 1);
            assert forall|j: int| 0 <= j < out@.len() implies {
                &&& (#[trigger] out@[j]).key is Some == sub[j].key is Some
                &&& out@[j].key is Some ==> out@[j].key->0@ == sub[j].key->0@
                &&& out@[j].value is Some == sub[j].value is Some
                &&& out@[j].value is Some ==> out@[j].value->0@ == sub[j].value->0@
            } by {
                if j < i {
                    assert(out@[j] == before[j]);
                    assert(sub[j] == inputs@.subrange(0, i as int)[j]);
                }
            }
        }
        i = i + 1;
    }
    proof {
        assert(inputs@.subrange(0, inputs@.len() as int) =~= inputs@);
        lemma_same_set_pairs(out@, inputs@);
    }
    out
}

/// What the first step of a `set` on the store `name` gives, for these
/// (input, metadata) pairs and model parameters: `StoreNotFound` for a store
/// that is not there; nothing to embed when there are no pairs; otherwise the
/// first faulty pair's error, or the plan with every pair checked and prepared.
pub open spec fn set_begin_result(
    stores: Map<Seq<char>, StoreEntry>,
    name: Seq<char>,
    pairs: Seq<(Option<ValueView>, Map<Seq<char>, Option<ValueView>>)>,
    params: Map<Seq<char>, Seq<char>>,
    res: Result<Option<SetPlan>, AIProxyError>,
) -> bool {
    &&& !stores.dom().contains(name) ==> (res matches Err(AIProxyError::StoreNotFound(n)) && n@ == name)
    &&& stores.dom().contains(name) && pairs.len() == 0 ==> (res matches Ok(None))
    &&& stores.dom().contains(name) && pairs.len() > 0 ==> {
        let im = stores[name].index_model;
        let so = stores[name].store_original;
        match res {
            Ok(Some(plan)) => {
                &&& plan.index_model == im
                &&& plan.model_params.wf()
                &&& param_views(plan.model_params@) == with_image_dimensions(
                    pairs.map_values(|p: (Option<ValueView>, Map<Seq<char>, Option<ValueView>>)| p.0),
                    params,
                )
                &&& plan.inputs@.len() == pairs.len()
                &&& plan.values@.len() == pairs.len()
                &&& forall|i: int|
                    0 <= i < pairs.len() ==> input_fault(im, #[trigger] pairs[i].0, pairs[i].1, so) is None
                        && plan.inputs@[i]@ == pairs[i].0 && plan.values@[i]@ == prepared_value(
                        pairs[i].0,
                        pairs[i].1,
                        so,
                    ) && plan.values@[i].wf()
                &&& match plan.replaced {
                    Some(r) => so && lists_pair_inputs(r@, pairs),
                    None => !so,
                }
            },
            Ok(None) => false,
            Err(e) => exists|k: int| #[trigger] first_bad_pair(im, pairs, so, k, e),
        }
    }
}

/// The first step of a `set`: the store must exist; with no inputs there is
/// nothing to embed; otherwise every input is checked against the store's
/// index model and, when the store keeps originals, recorded in its metadata,
/// and the size of each image input is added to the model parameters.
pub fn set_begin(
    handler: &AIStoreHandler,
    store: &StoreName,
    inputs: Vec<SetInput>,
    model_params: StrMap<String>,
) -> (res: Result<Option<SetPlan>, AIProxyError>)
    requires
        forall|i: int| 0 <= i < inputs@.len() ==> set_input_wf(#[trigger] inputs@[i]),
        model_params.wf(),
    ensures
        ({
            let pairs = set_pairs(inputs@);
            let stores = handler.stores();
            let name = store.value@;
            &&& !stores.dom().contains(name) ==> (res matches Err(AIProxyError::StoreNotFound(n))
                && n@ == name)
            &&& stores.dom().contains(name) && pairs.len() == 0 ==> (res matches Ok(None))
            &&& stores.dom().contains(name) && pairs.len() > 0 ==> {
                let im = stores[name].index_model;
                let so = stores[name].store_original;
                match res {
                    Ok(Some(plan)) => {
                        &&& plan.index_model == im
                        &&& plan.model_params.wf()
                        &&& param_views(plan.model_params@) == with_image_dimensions(
                            pairs.map_values(|p: (Option<ValueView>, Map<Seq<char>, Option<ValueView>>)| p.0),
                            param_views(model_params@),
                        )
                        &&& plan.inputs@.len() == pairs.len()
                        &&& plan.values@.len() == pairs.len()
                        &&& forall|i: int|
                            0 <= i < pairs.len() ==> input_fault(im, #[trigger] pairs[i].0, pairs[i].1, so)
                                is None && plan.inputs@[i]@ == pairs[i].0 && plan.values@[i]@
                                == prepared_value(pairs[i].0, pairs[i].1, so) && plan.values@[i].wf()
                        &&& match plan.replaced {
                            Some(r) => so && lists_pair_inputs(r@, pairs),
                            None => !so,
                        }
                    },
                    Ok(None) => false,
                    Err(e) => exists|k: int| #[trigger] first_bad_pair(im, pairs, so, k, e),
                }
            }
        }),
        set_begin_result(handler.stores(), store.value@, set_pairs(inputs@), param_views(model_params@), res),
{
    let ghost orig = inputs@;
    let pairs = set_inputs(inputs);
    let ghost pv = set_pairs(orig);
    let mut keys: Vec<StoreInput> = Vec::new();
    let mut i: usize = 0;
    while i < pairs.len()
        invariant
            0 <= i <= pairs@.len(),
            pairs@.len() == pv.len(),
            forall|k: int| 0 <= k < pairs@.len() ==> (#[trigger] pairs@[k]).0@ == pv[k].0,
            keys@.len() == i,
            forall|k: int| 0 <= k < i ==> (#[trigger] keys@[k])@ == pv[k].0,
        decreases pairs@.len() - i,
    {
        keys.push(pairs[i].0.duplicate());
        i = i + 1;
    }
    let mut params = model_params;
    extract_and_inject_image_dimensions(&keys, &mut params);
    proof {
        assert(input_views(keys@) =~= pv.map_values(
            |p: (Option<ValueView>, Map<Seq<char>, Option<ValueView>>)| p.0,
        ));
    }
    let ghost pe = pairs@;
    match handler.set_prepare(store, pairs) {
        Err(e) => {
            proof {
                if handler.stores().dom().contains(store.value@) && pv.len() > 0 {
                    let im = handler.stores()[store.value@].index_model;
                    let so = handler.stores()[store.value@].store_original;
                    let k = choose|k: int| #[trigger] first_fault_is(im, pe, so, k, e);
                    assert forall|j: int| 0 <= j < k implies input_fault(
                        im,
                        #[trigger] pv[j].0,
                        pv[j].1,
                        so,
                    ) is None by {
                        assert(crate::store::fault_at(im, pe, j, so) is None);
                    }
                    assert(first_bad_pair(im, pv, so, k, e));
                }
            }
            Err(e)
        },
        Ok(None) => Ok(None),
        Ok(Some((index_model, prepared, replaced))) => {
            let ghost pp = prepared@;
            let mut rest = crate::seqs::reversed(prepared);
            let total = rest.len();
            let mut ins: Vec<StoreInput> = Vec::new();
            let mut vals: Vec<StoreValue> = Vec::new();
            let mut n: usize = 0;
            while rest.len() > 0
                invariant
                    n + rest@.len() == pp.len(),
                    total == pp.len(),
                    forall|j: int| 0 <= j < rest@.len() ==> #[trigger] rest@[j] == pp[pp.len() - 1 - j],
                    ins@.len() == n,
                    vals@.len() == n,
                    forall|j: int| 0 <= j < n ==> (#[trigger] ins@[j]) == pp[j].0,
                    forall|j: int| 0 <= j < n ==> (#[trigger] vals@[j]) == pp[j].1,
                decreases rest@.len(),
            {
                let (a, b) = rest.pop().unwrap();
                ins.push(a);
                vals.push(b);
                n = n + 1;
            }
            let plan = SetPlan { index_model, inputs: ins, values: vals, model_params: params, replaced };
            proof {
                let im = handler.stores()[store.value@].index_model;
                let so = handler.stores()[store.value@].store_original;
                assert forall|x: Option<ValueView>| crate::store::has_input(pe, x) <==> has_pair_input(pv, x) by {
                    if crate::store::has_input(pe, x) {
                        let i = choose|i: int| 0 <= i < pe.len() && #[trigger] pe[i].0@ == x;
                        assert(pv[i].0 == x);
                    }
                    if has_pair_input(pv, x) {
                        let i = choose|i: int| 0 <= i < pv.len() && #[trigger] pv[i].0 == x;
                        assert(pe[i].0@ == x);
                    }
                }
                assert forall|j: int| 0 <= j < pv.len() implies input_fault(
                    im,
                    #[trigger] pv[j].0,
                    pv[j].1,
                    so,
                ) is None && plan.inputs@[j]@ == pv[j].0 && plan.values@[j]@ == prepared_value(
                    pv[j].0,
                    pv[j].1,
                    so,
                ) && plan.values@[j].wf() by {
                    assert(crate::store::fault_at(im, pe, j, so) is None);
                    assert(pp[j].0@ == pe[j].0@);
                }
            }
            Ok(Some(plan))
        },
    }
}

} // verus!
