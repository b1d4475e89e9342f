//! A small map from strings to values, kept as a list of entries whose keys
//! are pairwise distinct. Its abstract value is a `Map<Seq<char>, V>`.
use vstd::prelude::*;

verus! {

/// An association list keyed by strings. No key occurs twice.
#[derive(Debug)]
pub struct StrMap<V> {
    entries: Vec<(String, V)>,
}

/// The keys of a list of entries are pairwise distinct.
pub open spec fn distinct_keys<V>(s: Seq<(String, V)>) -> bool {
    forall|i: int, j: int|
        0 <= i < s.len() && 0 <= j < s.len() && i != j ==> #[trigger] s[i].0@ != #[trigger] s[j].0@
}

/// The map that a list of entries with distinct keys stands for.
pub open spec fn entries_map<V>(s: Seq<(String, V)>) -> Map<Seq<char>, V>
    decreases s.len(),
{
    if s.len() == 0 {
        Map::empty()
    } else {
        entries_map(s.drop_last()).insert(s.last().0@, s.last().1)
    }
}

/// Position of the entry whose key is `k`, if any.
pub open spec fn key_index<V>(s: Seq<(String, V)>, k: Seq<char>) -> int
    decreases s.len(),
{
    if s.len() == 0 {
        -1
    } else if s.last().0@ == k {
        s.len() - 1
    } else {
        key_index(s.drop_last(), k)
    }
}

pub proof fn lemma_key_index<V>(s: Seq<(String, V)>, k: Seq<char>)
    requires
        distinct_keys(s),
    ensures
        entries_map(s).dom().contains(k) <==> key_index(s, k) >= 0,
        key_index(s, k) < s.len(),
        key_index(s, k) >= 0 ==> s[key_index(s, k)].0@ == k,
        key_index(s, k) >= 0 ==> entries_map(s)[k] == s[key_index(s, k)].1,
        key_index(s, k) < 0 ==> forall|i: int| 0 <= i < s.len() ==> s[i].0@ != k,
        entries_map(s).dom().finite(),
        entries_map(s).dom().len() == s.len(),
    decreases s.len(),
{
    if s.len() > 0 {
        let t = s.drop_last();
        assert(distinct_keys(t)) by {
            assert forall|i: int, j: int|
                0 <= i < t.len() && 0 <= j < t.len() && i != j implies #[trigger] t[i].0@
                != #[trigger] t[j].0@ by {
                assert(t[i] == s[i]);
                assert(t[j] == s[j]);
            }
        }
        lemma_key_index(t, k);
        lemma_key_index(t, s.last().0@);
        if key_index(t, s.last().0@) >= 0 {
            let p = key_index(t, s.last().0@);
            assert(t[p] == s[p]);
            assert(s[p].0@ != s[s.len() - 1].0@);
        }
        if key_index(t, k) < 0 && s.last().0@ != k {
            assert forall|i: int| 0 <= i < s.len() implies s[i].0@ != k by {
                if i < s.len() - 1 {
                    assert(t[i] == s[i]);
                }
            }
        }
        if key_index(t, k) >= 0 {
            assert(t[key_index(t, k)] == s[key_index(t, k)]);
        }
    }
}

/// Removing the entry at `idx` removes its key from the map.
pub proof fn lemma_remove_index<V>(s: Seq<(String, V)>, idx: int)
    requires
        distinct_keys(s),
        0 <= idx < s.len(),
    ensures
        distinct_keys(s.remove(idx)),
        entries_map(s.remove(idx)) =~= entries_map(s).remove(s[idx].0@),
{
    let r = s.remove(idx);
    assert(distinct_keys(r)) by {
        assert forall|i: int, j: int|
            0 <= i < r.len() && 0 <= j < r.len() && i != j implies #[trigger] r[i].0@
            != #[trigger] r[j].0@ by {
            let ii = if i < idx { i } else { i + 1 };
            let jj = if j < idx { j } else { j + 1 };
            assert(r[i] == s[ii]);
            assert(r[j] == s[jj]);
        }
    }
    lemma_key_index(s, s[idx].0@);
    assert forall|k: Seq<char>| #[trigger] entries_map(r).dom().contains(k) <==> entries_map(
        s,
    ).remove(s[idx].0@).dom().contains(k) by {
        lemma_key_index(r, k);
        lemma_key_index(s, k);
        if key_index(r, k) >= 0 {
            let p = key_index(r, k);
            let pp = if p < idx { p } else { p + 1 };
            assert(r[p] == s[pp]);
        }
        if key_index(s, k) >= 0 && k != s[idx].0@ {
            let p = key_index(s, k);
            let q = if p < idx { p } else { p - 1 };
            assert(r[q] == s[p]);
        }
    }
    assert forall|k: Seq<char>| #[trigger] entries_map(r).dom().contains(k) implies entries_map(
        r,
    )[k] == entries_map(s)[k] by {
        lemma_key_index(r, k);
        lemma_key_index(s, k);
        let p = key_index(r, k);
        let pp = if p < idx { p } else { p + 1 };
        assert(r[p] == s[pp]);
        if key_index(s, k) != pp {
            let q = key_index(s, k);
            assert(s[q].0@ == s[pp].0@);
        }
    }
}

/// Updating the value of the entry at `idx` updates its key in the map.
pub proof fn lemma_update_index<V>(s: Seq<(String, V)>, idx: int, k: String, v: V)
    requires
        distinct_keys(s),
        0 <= idx < s.len(),
        s[idx].0@ == k@,
    ensures
        distinct_keys(s.update(idx, (k, v))),
        entries_map(s.update(idx, (k, v))) =~= entries_map(s).insert(k@, v),
{
    let u = s.update(idx, (k, v));
    assert(distinct_keys(u)) by {
        assert forall|i: int, j: int|
            0 <= i < u.len() && 0 <= j < u.len() && i != j implies #[trigger] u[i].0@
            != #[trigger] u[j].0@ by {
            assert(u[i].0@ == s[i].0@);
            assert(u[j].0@ == s[j].0@);
        }
    }
    lemma_key_index(s, k@);
    assert forall|key: Seq<char>| #[trigger] entries_map(u).dom().contains(key) <==> entries_map(
        s,
    ).insert(k@, v).dom().contains(key) by {
        lemma_key_index(u, key);
        lemma_key_index(s, key);
        if key_index(u, key) >= 0 {
            assert(u[key_index(u, key)].0@ == s[key_index(u, key)].0@);
        }
        if key_index(s, key) >= 0 {
            assert(u[key_index(s, key)].0@ == s[key_index(s, key)].0@);
        }
    }
    assert forall|key: Seq<char>| #[trigger] entries_map(u).dom().contains(key) implies entries_map(
        u,
    )[key] == entries_map(s).insert(k@, v)[key] by {
        lemma_key_index(u, key);
        lemma_key_index(s, key);
        let p = key_index(u, key);
        if key == k@ {
            if p != idx {
                assert(u[p].0@ == u[idx].0@);
            }
        } else {
            assert(u[p] == s[p]);
            if key_index(s, key) != p {
                let q = key_index(s, key);
                assert(s[q].0@ == s[p].0@);
            }
        }
    }
}

impl<V> View for StrMap<V> {
    type V = Map<Seq<char>, V>;

    closed spec fn view(&self) -> Map<Seq<char>, V> {
        entries_map(self.entries@)
    }
}

impl<V> StrMap<V> {
    /// The entries are a list with pairwise distinct keys.
    pub closed spec fn wf(&self) -> bool {
        distinct_keys(self.entries@)
    }

    /// The entries in the order in which they were first inserted.
    pub closed spec fn entry_seq(&self) -> Seq<(String, V)> {
        self.entries@
    }

    /// The map is the one that its entries stand for, and their keys are distinct.
    pub proof fn lemma_entries(&self)
        requires
            self.wf(),
        ensures
            distinct_keys(self.entry_seq()),
            self@ == entries_map(self.entry_seq()),
            self@.dom().finite(),
            self@.dom().len() == self.entry_seq().len(),
            forall|i: int|
                0 <= i < self.entry_seq().len() ==> #[trigger] self@.dom().contains(
                    self.entry_seq()[i].0@,
                ) && self@[self.entry_seq()[i].0@] == self.entry_seq()[i].1,
    {
        lemma_key_index(self.entries@, Seq::empty());
        assert forall|i: int| 0 <= i < self.entry_seq().len() implies #[trigger] self@.dom().contains(
            self.entry_seq()[i].0@,
        ) && self@[self.entry_seq()[i].0@] == self.entry_seq()[i].1 by {
            lemma_key_index(self.entries@, self.entries@[i].0@);
            let p = key_index(self.entries@, self.entries@[i].0@);
            if p != i {
                assert(self.entries@[p].0@ == self.entries@[i].0@);
            }
        }
    }

    /// An empty map.
    pub fn new() -> (res: Self)
        ensures
            res.wf(),
            res@ == Map::<Seq<char>, V>::empty(),
            res.entry_seq().len() == 0,
    {
        StrMap { entries: Vec::new() }
    }

    /// The number of keys.
    pub fn len(&self) -> (res: usize)
        requires
            self.wf(),
        ensures
            res == self@.dom().len(),
            res == self.entry_seq().len(),
    {
        proof {
            lemma_key_index(self.entries@, Seq::empty());
        }
        self.entries.len()
    }

    /// The position of `k` among the entries, if it is there.
    fn find(&self, k: &str) -> (res: Option<usize>)
        requires
            self.wf(),
        ensures
            match res {
                Some(i) => i < self.entries@.len() && self.entries@[i as int].0@ == k@
                    && self@.dom().contains(k@) && self@[k@] == self.entries@[i as int].1,
                None => !self@.dom().contains(k@),
            },
    {
        proof {
            lemma_key_index(self.entries@, k@);
        }
        let mut i: usize = 0;
        while i < self.entries.len()
            invariant
                self.wf(),
                0 <= i <= self.entries@.len(),
                forall|j: int| 0 <= j < i ==> self.entries@[j].0@ != k@,
                entries_map(self.entries@).dom().contains(k@) <==> key_index(self.entries@, k@)
                    >= 0,
                key_index(self.entries@, k@) >= 0 ==> self.entries@[key_index(
                    self.entries@,
                    k@,
                )].0@ == k@,
                key_index(self.entries@, k@) >= 0 ==> entries_map(self.entries@)[k@]
                    == self.entries@[key_index(self.entries@, k@)].1,
                key_index(self.entries@, k@) < self.entries@.len(),
                key_index(self.entries@, k@) < 0 ==> forall|j: int|
                    0 <= j < self.entries@.len() ==> self.entries@[j].0@ != k@,
            decreases self.entries@.len() - i,
        {
            if str_equal(self.entries[i].0.as_str(), k) {
                proof {
                    let p = key_index(self.entries@, k@);
                    if p != i as int {
                        assert(self.entries@[p].0@ == self.entries@[i as int].0@);
                    }
                }
                return Some(i);
            }
            i = i + 1;
        }
        None
    }

    /// Whether `k` is a key.
    pub fn contains_key(&self, k: &str) -> (res: bool)
        requires
            self.wf(),
        ensures
            res == self@.dom().contains(k@),
    {
        self.find(k).is_some()
    }

    /// The value stored under `k`, if any.
    pub fn get(&self, k: &str) -> (res: Option<&V>)
        requires
            self.wf(),
        ensures
            match res {
                Some(v) => self@.dom().contains(k@) && *v == self@[k@],
                None => !self@.dom().contains(k@),
            },
    {
        match self.find(k) {
            Some(i) => Some(&self.entries[i].1),
            None => None,
        }
    }

    /// Stores `v` under `k`, replacing the value that was there.
    pub fn insert(&mut self, k: String, v: V)
        requires
            old(self).wf(),
        ensures
            final(self).wf(),
            final(self)@ == old(self)@.insert(k@, v),
    {
        match self.find(k.as_str()) {
            Some(i) => {
                proof {
                    lemma_update_index(self.entries@, i as int, k, v);
                }
                self.entries.set(i, (k, v));
            },
            None => {
                proof {
                    lemma_key_index(self.entries@, k@);
                    let s = self.entries@.push((k, v));
                    assert(s.drop_last() == self.entries@);
                    assert(distinct_keys(s)) by {
                        assert forall|a: int, b: int|
                            0 <= a < s.len() && 0 <= b < s.len() && a != b implies #[trigger] s[a].0@
                            != #[trigger] s[b].0@ by {
                            if a < s.len() - 1 && b < s.len() - 1 {
                                assert(s[a] == self.entries@[a]);
                                assert(s[b] == self.entries@[b]);
                            } else if a < s.len() - 1 {
                                assert(s[a] == self.entries@[a]);
                            } else {
                                assert(s[b] == self.entries@[b]);
                            }
                        }
                    }
                }
                self.entries.push((k, v));
            },
        }
    }

    /// Removes `k` and gives back the value that was stored under it.
    pub fn remove(&mut self, k: &str) -> (res: Option<V>)
        requires
            old(self).wf(),
        ensures
            final(self).wf(),
            final(self)@ == old(self)@.remove(k@),
            match res {
                Some(v) => old(self)@.dom().contains(k@) && v == old(self)@[k@],
                None => !old(self)@.dom().contains(k@),
            },
    {
        match self.find(k) {
            Some(i) => {
                proof {
                    lemma_remove_index(self.entries@, i as int);
                }
                let (_, v) = self.entries.remove(i);
                Some(v)
            },
            None => {
                proof {
                    assert(old(self)@.remove(k@) =~= old(self)@);
                }
                None
            },
        }
    }

    /// The entries, as a list of key and value references.
    pub fn entries(&self) -> (res: &Vec<(String, V)>)
        ensures
            res@ == self.entry_seq(),
    {
        &self.entries
    }
}

/// Two lists of text entries hold the same keys and the same texts, position
/// by position.
pub open spec fn same_text_entries(a: Seq<(String, String)>, b: Seq<(String, String)>) -> bool {
    &&& a.len() == b.len()
    &&& forall|i: int| 0 <= i < a.len() ==> #[trigger] a[i].0@ == b[i].0@ && a[i].1@ == b[i].1@
}

/// Lists with the same keys and texts stand for maps with the same keys and texts.
proof fn lemma_same_text_maps(a: Seq<(String, String)>, b: Seq<(String, String)>)
    requires
        same_text_entries(a, b),
    ensures
        entries_map(a).dom() == entries_map(b).dom(),
        forall|k: Seq<char>| #[trigger] entries_map(a).dom().contains(k) ==> entries_map(a)[k]@ == entries_map(b)[k]@,
    decreases a.len(),
{
    if a.len() > 0 {
        let (ta, tb) = (a.drop_last(), b.drop_last());
        assert(same_text_entries(ta, tb)) by {
            assert forall|i: int| 0 <= i < ta.len() implies #[trigger] ta[i].0@ == tb[i].0@ && ta[i].1@ == tb[i].1@ by {
                assert(ta[i] == a[i] && tb[i] == b[i]);
            }
        }
        lemma_same_text_maps(ta, tb);
        assert(a.last().0@ == b.last().0@ && a.last().1@ == b.last().1@) by {
            assert(a[a.len() - 1].0@ == b[a.len() - 1].0@);
        }
        assert(entries_map(a).dom() =~= entries_map(b).dom());
    }
}

impl StrMap<String> {
    /// A copy of a map of texts.
    pub fn duplicate(&self) -> (res: StrMap<String>)
        requires
            self.wf(),
        ensures
            res.wf(),
            res@.dom() == self@.dom(),
            forall|k: Seq<char>| #[trigger] res@.dom().contains(k) ==> res@[k]@ == self@[k]@,
    {
        let mut out: Vec<(String, String)> = Vec::new();
        let mut i: usize = 0;
        while i < self.entries.len()
            invariant
                0 <= i <= self.entries@.len(),
                out@.len() == i,
                forall|j: int| 0 <= j < i ==> #[trigger] out@[j].0@ == self.entries@[j].0@ && out@[j].1@
                    == self.entries@[j].1@,
            decreases self.entries@.len() - i,
        {
            let (k, v) = &self.entries[i];
            out.push((k.clone(), v.clone()));
            i = i + 1;
        }
        proof {
            assert(same_text_entries(self.entries@, out@));
            lemma_same_text_maps(self.entries@, out@);
            assert(distinct_keys(out@)) by {
                assert forall|a: int, b: int|
                    0 <= a < out@.len() && 0 <= b < out@.len() && a != b implies #[trigger] out@[a].0@
                    != #[trigger] out@[b].0@ by {
                    assert(self.entries@[a].0@ != self.entries@[b].0@);
                }
            }
        }
        StrMap { entries: out }
    }
}

/// Whether two strings hold the same characters.
pub fn str_equal(a: &str, b: &str) -> (res: bool)
    ensures
        res == (a@ == b@),
{
    let x: String = a.to_owned();
    let y: String = b.to_owned();
    x == y
}

} // verus!
