//! The concurrent table, from the `papaya` crate, that holds the stores by name.
//! Each operation the store handler uses is a trusted wrapper whose contract
//! says what the operation does to the table's contents. The wrappers take the
//! table by `&mut` where it changes, so no other thread acts on it meanwhile.
use vstd::prelude::*;
use crate::models::AiModel;

verus! {

#[verifier::external_type_specification]
#[verifier::external_body]
#[verifier::reject_recursive_types(K)]
#[verifier::reject_recursive_types(V)]
#[verifier::reject_recursive_types(S)]
pub struct ExPapayaHashMap<K, V, S>(papaya::HashMap<K, V, S>);

/// What the table keeps about one store.
#[derive(Clone, Copy, Debug, PartialEq, Eq)]
pub struct StoreEntry {
    pub query_model: AiModel,
    pub index_model: AiModel,
    pub store_original: bool,
}

/// The table of stores.
pub type StoreTable = papaya::HashMap<String, StoreEntry>;

/// The contents of a table of stores, by store name.
pub uninterp spec fn table_contents(t: papaya::HashMap<String, StoreEntry>) -> Map<
    Seq<char>,
    StoreEntry,
>;

/// The contents of a table with no stores.
pub open spec fn no_stores() -> Map<Seq<char>, StoreEntry> {
    Map::empty()
}

/// `papaya::HashMap::new`: an empty table.
#[verifier::external_body]
pub(crate) fn table_new() -> (t: StoreTable)
    ensures
        table_contents(t) == no_stores(),
{
    papaya::HashMap::new()
}

/// `papaya::HashMap::len`: the number of entries, which with no concurrent
/// writer is exact.
#[verifier::external_body]
pub(crate) fn table_len(t: &StoreTable) -> (n: usize)
    requires
        table_contents(*t).dom().finite(),
    ensures
        n == table_contents(*t).dom().len(),
{
    t.len()
}

/// `papaya::HashMapRef::get`: a copy of the entry stored under `name`, if any.
#[verifier::external_body]
pub(crate) fn table_get(t: &StoreTable, name: &str) -> (res: Option<StoreEntry>)
    ensures
        match res {
            Some(e) => table_contents(*t).dom().contains(name@) && table_contents(*t)[name@] == e,
            None => !table_contents(*t).dom().contains(name@),
        },
{
    t.pin().get(name).copied()
}

/// `papaya::HashMapRef::try_insert`: stores `entry` under `name` unless the
/// name is taken, in which case the table is unchanged. True when it stored.
#[verifier::external_body]
pub(crate) fn table_try_insert(t: &mut StoreTable, name: String, entry: StoreEntry) -> (inserted: bool)
    ensures
        inserted == !table_contents(*old(t)).dom().contains(name@),
        inserted ==> table_contents(*final(t)) == table_contents(*old(t)).insert(name@, entry),
        !inserted ==> table_contents(*final(t)) == table_contents(*old(t)),
{
    t.pin().try_insert(name, entry).is_ok()
}

/// `papaya::HashMapRef::insert`: stores `entry` under `name`, replacing what was there.
#[verifier::external_body]
pub(crate) fn table_insert(t: &mut StoreTable, name: String, entry: StoreEntry)
    ensures
        table_contents(*final(t)) == table_contents(*old(t)).insert(name@, entry),
{
    t.pin().insert(name, entry);
}

/// `papaya::HashMapRef::remove`: removes `name`; true when it was there.
#[verifier::external_body]
pub(crate) fn table_remove(t: &mut StoreTable, name: &str) -> (removed: bool)
    ensures
        removed == table_contents(*old(t)).dom().contains(name@),
        table_contents(*final(t)) == table_contents(*old(t)).remove(name@),
{
    t.pin().remove(name).is_some()
}

/// `papaya::HashMapRef::clear`: removes every entry.
#[verifier::external_body]
pub(crate) fn table_clear(t: &mut StoreTable)
    ensures
        table_contents(*final(t)) == no_stores(),
{
    t.pin().clear();
}

/// `papaya::HashMapRef::iter`: every entry once, in an order the table does
/// not promise; each name with a copy of its entry.
#[verifier::external_body]
pub(crate) fn table_entries(t: &StoreTable) -> (res: Vec<(String, StoreEntry)>)
    requires
        table_contents(*t).dom().finite(),
    ensures
        res@.len() == table_contents(*t).dom().len(),
        forall|i: int, j: int|
            0 <= i < res@.len() && 0 <= j < res@.len() && i != j ==> #[trigger] res@[i].0@
                != #[trigger] res@[j].0@,
        forall|i: int|
            0 <= i < res@.len() ==> #[trigger] table_contents(*t).dom().contains(res@[i].0@)
                && table_contents(*t)[res@[i].0@] == res@[i].1,
{
    t.pin().iter().map(|(name, entry)| (name.clone(), *entry)).collect()
}

} // verus!
