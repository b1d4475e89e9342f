//! Store inputs (raw text or image bytes), the metadata attached to stored
//! entries, and the reserved metadata keys the proxy uses.
use vstd::prelude::*;
use crate::keyed::StrMap;
use crate::models::AiStoreInputType;

verus! {

/// The abstract value of an input or a metadata value.
pub enum ValueView {
    RawString(Seq<char>),
    Image(Seq<u8>),
}

/// The payload of a store input.
#[derive(Debug)]
pub enum StoreInputValue {
    RawString(String),
    Image(Vec<u8>),
}

/// An input that a client stores or searches by; its value may be missing.
#[derive(Debug)]
pub struct StoreInput {
    pub value: Option<StoreInputValue>,
}

/// The payload of a metadata value.
#[derive(Debug)]
pub enum MetadataKind {
    RawString(String),
    Image(Vec<u8>),
}

/// A value held in the metadata of a stored entry; its value may be missing.
#[derive(Debug)]
pub struct MetadataValue {
    pub value: Option<MetadataKind>,
}

/// The name of a store.
#[derive(Debug)]
pub struct StoreName {
    pub value: String,
}

/// The metadata of a stored entry, by key.
#[derive(Debug)]
pub struct StoreValue {
    pub value: StrMap<MetadataValue>,
}

impl View for StoreInputValue {
    type V = ValueView;

    open spec fn view(&self) -> ValueView {
        match self {
            StoreInputValue::RawString(s) => ValueView::RawString(s@),
            StoreInputValue::Image(b) => ValueView::Image(b@),
        }
    }
}

impl View for StoreInput {
    type V = Option<ValueView>;

    open spec fn view(&self) -> Option<ValueView> {
        match self.value {
            Some(v) => Some(v@),
            None => None,
        }
    }
}

impl View for MetadataKind {
    type V = ValueView;

    open spec fn view(&self) -> ValueView {
        match self {
            MetadataKind::RawString(s) => ValueView::RawString(s@),
            MetadataKind::Image(b) => ValueView::Image(b@),
        }
    }
}

impl View for MetadataValue {
    type V = Option<ValueView>;

    open spec fn view(&self) -> Option<ValueView> {
        match self.value {
            Some(v) => Some(v@),
            None => None,
        }
    }
}

impl View for StoreValue {
    type V = Map<Seq<char>, Option<ValueView>>;

    open spec fn view(&self) -> Map<Seq<char>, Option<ValueView>> {
        self.value@.map_values(|m: MetadataValue| m@)
    }
}

/// The key under which the proxy keeps the original input of an entry.
pub open spec fn reserved_meta_key() -> Seq<char> {
    "_ahnlich_input_key"@
}

/// The key under which the proxy numbers the outputs of a one-to-many model.
pub open spec fn one_to_many_index_meta_key() -> Seq<char> {
    "_ahnlich_one_to_many_index"@
}

/// The reserved key for original inputs.
pub fn reserved_meta_key_string() -> (res: String)
    ensures
        res@ == reserved_meta_key(),
{
    String::from_str("_ahnlich_input_key")
}

/// The reserved key for the numbering of one-to-many outputs.
pub fn one_to_many_index_meta_key_string() -> (res: String)
    ensures
        res@ == one_to_many_index_meta_key(),
{
    String::from_str("_ahnlich_one_to_many_index")
}

/// The input type of a present input value.
pub open spec fn input_type_of_value(v: ValueView) -> AiStoreInputType {
    match v {
        ValueView::RawString(_) => AiStoreInputType::RawString,
        ValueView::Image(_) => AiStoreInputType::Image,
    }
}

/// A copy of a byte vector.
pub fn copy_bytes(b: &Vec<u8>) -> (res: Vec<u8>)
    ensures
        res@ == b@,
{
    let mut out: Vec<u8> = Vec::new();
    let mut i: usize = 0;
    while i < b.len()
        invariant
            0 <= i <= b@.len(),
            out@ == b@.subrange(0, i as int),
        decreases b@.len() - i,
    {
        out.push(b[i]);
        i = i + 1;
    }
    assert(out@ =~= b@);
    out
}

/// Whether two byte vectors are equal.
pub fn bytes_equal(a: &Vec<u8>, b: &Vec<u8>) -> (res: bool)
    ensures
        res == (a@ == b@),
{
    if a.len() != b.len() {
        return false;
    }
    let mut i: usize = 0;
    while i < a.len()
        invariant
            a@.len() == b@.len(),
            0 <= i <= a@.len(),
            forall|j: int| 0 <= j < i ==> a@[j] == b@[j],
        decreases a@.len() - i,
    {
        if a[i] != b[i] {
            return false;
        }
        i = i + 1;
    }
    assert(a@ =~= b@);
    true
}

impl StoreInput {
    /// A copy of this input.
    pub fn duplicate(&self) -> (res: StoreInput)
        ensures
            res@ == self@,
    {
        match &self.value {
            Some(StoreInputValue::RawString(s)) => StoreInput {
                value: Some(StoreInputValue::RawString(s.clone())),
            },
            Some(StoreInputValue::Image(b)) => StoreInput {
                value: Some(StoreInputValue::Image(copy_bytes(b))),
            },
            None => StoreInput { value: None },
        }
    }

    /// The type of this input; none when its value is missing.
    pub fn input_type(&self) -> (res: Option<AiStoreInputType>)
        ensures
            match self@ {
                Some(v) => res == Some(input_type_of_value(v)),
                None => res is None,
            },
    {
        match &self.value {
            Some(StoreInputValue::RawString(_)) => Some(AiStoreInputType::RawString),
            Some(StoreInputValue::Image(_)) => Some(AiStoreInputType::Image),
            None => None,
        }
    }

    /// The metadata value holding a copy of this input; none when the input is empty.
    pub fn to_metadata(&self) -> (res: Option<MetadataValue>)
        ensures
            match self@ {
                Some(v) => res matches Some(m) && m@ == Some(v),
                None => res is None,
            },
    {
        match &self.value {
            Some(StoreInputValue::RawString(s)) => Some(
                MetadataValue { value: Some(MetadataKind::RawString(s.clone())) },
            ),
            Some(StoreInputValue::Image(b)) => Some(
                MetadataValue { value: Some(MetadataKind::Image(copy_bytes(b))) },
            ),
            None => None,
        }
    }
}

impl MetadataValue {
    /// A copy of this value.
    pub fn duplicate(&self) -> (res: MetadataValue)
        ensures
            res@ == self@,
    {
        match &self.value {
            Some(MetadataKind::RawString(s)) => MetadataValue {
                value: Some(MetadataKind::RawString(s.clone())),
            },
            Some(MetadataKind::Image(b)) => MetadataValue {
                value: Some(MetadataKind::Image(copy_bytes(b))),
            },
            None => MetadataValue { value: None },
        }
    }

    /// The store input this value holds; none when the value is empty.
    pub fn into_store_input(self) -> (res: Option<StoreInput>)
        ensures
            match self@ {
                Some(v) => res matches Some(i) && i@ == Some(v),
                None => res is None,
            },
    {
        match self.value {
            Some(MetadataKind::RawString(s)) => Some(
                StoreInput { value: Some(StoreInputValue::RawString(s)) },
            ),
            Some(MetadataKind::Image(b)) => Some(StoreInput { value: Some(StoreInputValue::Image(b)) }),
            None => None,
        }
    }

    /// Whether two metadata values are equal.
    pub fn same_as(&self, other: &MetadataValue) -> (res: bool)
        ensures
            res == (self@ == other@),
    {
        match (&self.value, &other.value) {
            (Some(MetadataKind::RawString(a)), Some(MetadataKind::RawString(b))) => crate::keyed::str_equal(a.as_str(), b.as_str()),
            (Some(MetadataKind::Image(a)), Some(MetadataKind::Image(b))) => bytes_equal(a, b),
            (None, None) => true,
            _ => false,
        }
    }
}

impl StoreValue {
    /// Metadata with no entries.
    pub fn new() -> (res: StoreValue)
        ensures
            res.wf(),
            res@ == Map::<Seq<char>, Option<ValueView>>::empty(),
    {
        let m = StrMap::new();
        assert(m@.map_values(|v: MetadataValue| v@) =~= Map::<Seq<char>, Option<ValueView>>::empty());
        StoreValue { value: m }
    }

    pub open spec fn wf(&self) -> bool {
        self.value.wf()
    }

    /// Whether `k` is a key of the metadata.
    pub fn contains_key(&self, k: &str) -> (res: bool)
        requires
            self.wf(),
        ensures
            res == self@.dom().contains(k@),
    {
        self.value.contains_key(k)
    }

    /// Stores `v` under `k`.
    pub fn insert(&mut self, k: String, v: MetadataValue)
        requires
            old(self).wf(),
        ensures
            final(self).wf(),
            final(self)@ == old(self)@.insert(k@, v@),
    {
        let ghost kk = k@;
        let ghost vv = v;
        self.value.insert(k, v);
        proof {
            assert(self.value@.map_values(|m: MetadataValue| m@) =~= old(self).value@.map_values(
                |m: MetadataValue| m@,
            ).insert(kk, vv@));
        }
    }

    /// Removes `k` and gives back what was stored under it.
    pub fn remove(&mut self, k: &str) -> (res: Option<MetadataValue>)
        requires
            old(self).wf(),
        ensures
            final(self).wf(),
            final(self)@ == old(self)@.remove(k@),
            match res {
                Some(v) => old(self)@.dom().contains(k@) && v@ == old(self)@[k@],
                None => !old(self)@.dom().contains(k@),
            },
    {
        let r = self.value.remove(k);
        proof {
            assert(self.value@.map_values(|m: MetadataValue| m@) =~= old(self).value@.map_values(
                |m: MetadataValue| m@,
            ).remove(k@));
        }
        r
    }

    /// A copy of this metadata.
    pub fn duplicate(&self) -> (res: StoreValue)
        requires
            self.wf(),
        ensures
            res.wf(),
            res@ == self@,
    {
        let mut out = StoreValue::new();
        let entries = self.value.entries();
        proof {
            self.value.lemma_entries();
        }
        let mut i: usize = 0;
        while i < entries.len()
            invariant
                self.wf(),
                out.wf(),
                entries@ == self.value.entry_seq(),
                crate::keyed::distinct_keys(entries@),
                self.value@ == crate::keyed::entries_map(entries@),
                0 <= i <= entries@.len(),
                out@ == crate::keyed::entries_map(entries@.subrange(0, i as int)).map_values(
                    |m: MetadataValue| m@,
                ),
            decreases entries@.len() - i,
        {
            let (k, v) = &entries[i];
            let ghost before = out@;
            out.insert(k.clone(), v.duplicate());
            proof {
                let s = entries@.subrange(0, i as int + 1);
                assert(s.drop_last() =~= entries@.subrange(0, i as int));
                assert(out@ =~= crate::keyed::entries_map(s).map_values(|m: MetadataValue| m@));
            }
            i = i + 1;
        }
        assert(entries@.subrange(0, entries@.len() as int) =~= entries@);
        out
    }
}

} // verus!
