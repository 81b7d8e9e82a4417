//! A map from strings to values, kept as a list of entries with distinct
//! keys.
use vstd::prelude::*;

use crate::text::str_equal;

verus! {

/// A map keyed by strings: a list of `(key, value)` entries whose keys are
/// distinct.
#[derive(Debug)]
pub struct AssocList<V> {
    entries: Vec<(String, V)>,
}

/// Whether the keys of the entries are distinct.
pub open spec fn distinct_keys<V>(s: Seq<(String, V)>) -> bool {
    forall|i: int, j: int| 0 <= i < j < s.len() ==> (#[trigger] s[i]).0@ != (#[trigger] s[j]).0@
}

/// Whether some entry has the key `k`.
pub open spec fn has_key<V>(s: Seq<(String, V)>, k: Seq<char>) -> bool {
    exists|i: int| 0 <= i < s.len() && (#[trigger] s[i]).0@ == k
}

/// An index of an entry with the key `k`.
pub open spec fn index_of<V>(s: Seq<(String, V)>, k: Seq<char>) -> int {
    choose|i: int| 0 <= i < s.len() && (#[trigger] s[i]).0@ == k
}

/// The map that a list of entries stands for.
pub open spec fn entries_map<V>(s: Seq<(String, V)>) -> Map<Seq<char>, V> {
    Map::new(|k: Seq<char>| has_key(s, k), |k: Seq<char>| s[index_of(s, k)].1)
}

proof fn lemma_index_of<V>(s: Seq<(String, V)>, i: int)
    requires
        distinct_keys(s),
        0 <= i < s.len(),
    ensures
        has_key(s, s[i].0@),
        index_of(s, s[i].0@) == i,
        entries_map(s).contains_key(s[i].0@),
        entries_map(s)[s[i].0@] == s[i].1,
{
    let k = s[i].0@;
    assert(has_key(s, k));
    let j = index_of(s, k);
    if j != i {
        if j < i {
            assert(s[j].0@ != s[i].0@);
        } else {
            assert(s[i].0@ != s[j].0@);
        }
    }
}

impl<V> View for AssocList<V> {
    type V = Map<Seq<char>, V>;

    closed spec fn view(&self) -> Map<Seq<char>, V> {
        entries_map(self.entries@)
    }
}

impl<V> AssocList<V> {
    /// Whether the keys are distinct.
    pub closed spec fn wf(&self) -> bool {
        distinct_keys(self.entries@)
    }

    /// An empty map.
    pub fn new() -> (m: AssocList<V>)
        ensures
            m.wf(),
            m@ == Map::<Seq<char>, V>::empty(),
    {
        let m = AssocList { entries: Vec::new() };
        assert(m@ =~= Map::<Seq<char>, V>::empty());
        m
    }

    fn find(&self, key: &str) -> (r: Option<usize>)
        requires
            self.wf(),
        ensures
            match r {
                Some(i) => i < self.entries@.len() && self.entries@[i as int].0@ == key@,
                None => !has_key(self.entries@, key@),
            },
    {
        let n = self.entries.len();
        for i in 0..n
            invariant
                n == self.entries@.len(),
                forall|j: int| 0 <= j < i ==> (#[trigger] self.entries@[j]).0@ != key@,
        {
            if str_equal(self.entries[i].0.as_str(), key) {
                return Some(i);
            }
        }
        None
    }

    /// The value under `key`.
    pub fn get(&self, key: &str) -> (r: Option<&V>)
        requires
            self.wf(),
        ensures
            match r {
                Some(v) => self@.contains_key(key@) && *v == self@[key@],
                None => !self@.contains_key(key@),
            },
    {
        match self.find(key) {
            Some(i) => {
                proof {
                    lemma_index_of(self.entries@, i as int);
                }
                Some(&self.entries[i].1)
            },
            None => None,
        }
    }

    /// Sets the value under `key`, replacing any earlier one.
    pub fn insert(&mut self, key: String, value: V)
        requires
            old(self).wf(),
        ensures
            final(self).wf(),
            final(self)@ == old(self)@.insert(key@, value),
    {
        let ghost old_entries = self.entries@;
        let ghost k = key@;
        match self.find(key.as_str()) {
            Some(i) => {
                self.entries.set(i, (key, value));
                proof {
                    let s = self.entries@;
                    assert(s == old_entries.update(i as int, (s[i as int].0, value)));
                    assert(distinct_keys(s)) by {
                        assert forall|a: int, b: int| 0 <= a < b < s.len() implies (#[trigger] s[a]).0@
                            != (#[trigger] s[b]).0@ by {
                            assert(old_entries[a].0@ != old_entries[b].0@);
                        }
                    }
                    lemma_index_of(s, i as int);
                    assert forall|q: Seq<char>| #[trigger] has_key(s, q) == (q == k || has_key(old_entries, q)) by {
                        if has_key(old_entries, q) {
                            let j = index_of(old_entries, q);
                            assert(s[j].0@ == q || j == i);
                        }
                        if has_key(s, q) {
                            let j = index_of(s, q);
                            assert(old_entries[j].0@ == q || j == i);
                        }
                    }
                    assert forall|q: Seq<char>| q != k && has_key(old_entries, q) implies entries_map(
                        s,
                    )[q] == entries_map(old_entries)[q] by {
                        let j = index_of(old_entries, q);
                        lemma_index_of(old_entries, j);
                        assert(j != i);
                        assert(s[j] == old_entries[j]);
                        lemma_index_of(s, j);
                    }
                    assert(entries_map(s) =~= entries_map(old_entries).insert(k, value));
                }
            },
            None => {
                self.entries.push((key, value));
                proof {
                    let s = self.entries@;
                    let n = old_entries.len();
                    assert(s == old_entries.push(s[n as int]));
                    assert(distinct_keys(s)) by {
                        assert forall|a: int, b: int| 0 <= a < b < s.len() implies (#[trigger] s[a]).0@
                            != (#[trigger] s[b]).0@ by {
                            if b == n {
                                assert(s[a] == old_entries[a]);
                            } else {
                                assert(old_entries[a].0@ != old_entries[b].0@);
                            }
                        }
                    }
                    lemma_index_of(s, n as int);
                    assert forall|q: Seq<char>| #[trigger] has_key(s, q) == (q == k || has_key(old_entries, q)) by {
                        if has_key(old_entries, q) {
                            let j = index_of(old_entries, q);
                            assert(s[j] == old_entries[j]);
                        }
                        if has_key(s, q) {
                            let j = index_of(s, q);
                            if j < n {
                                assert(s[j] == old_entries[j]);
                            }
                        }
                    }
                    assert forall|q: Seq<char>| q != k && has_key(old_entries, q) implies entries_map(
                        s,
                    )[q] == entries_map(old_entries)[q] by {
                        let j = index_of(old_entries, q);
                        lemma_index_of(old_entries, j);
                        assert(s[j] == old_entries[j]);
                        lemma_index_of(s, j);
                    }
                    assert(entries_map(s) =~= entries_map(old_entries).insert(k, value));
                }
            },
        }
    }

    /// Removes the value under `key` and hands it back.
    pub fn remove(&mut self, key: &str) -> (r: Option<V>)
        requires
            old(self).wf(),
        ensures
            final(self).wf(),
            final(self)@ == old(self)@.remove(key@),
            match r {
                Some(v) => old(self)@.contains_key(key@) && v == old(self)@[key@],
                None => !old(self)@.contains_key(key@),
            },
    {
        let ghost old_entries = self.entries@;
        let ghost k = key@;
        match self.find(key) {
            Some(i) => {
                proof {
                    lemma_index_of(old_entries, i as int);
                }
                let (_, v) = self.entries.remove(i);
                proof {
                    let s = self.entries@;
                    assert(s == old_entries.remove(i as int));
                    assert forall|a: int| 0 <= a < s.len() implies #[trigger] s[a] == if a < i {
                        old_entries[a]
                    } else {
                        old_entries[a + 1]
                    } by {}
                    assert(distinct_keys(s)) by {
                        assert forall|a: int, b: int| 0 <= a < b < s.len() implies (#[trigger] s[a]).0@
                            != (#[trigger] s[b]).0@ by {
                            let oa = if a < i {
                                a
                            } else {
                                a + 1
                            };
                            let ob = if b < i {
                                b
                            } else {
                                b + 1
                            };
                            assert(s[a] == old_entries[oa]);
                            assert(s[b] == old_entries[ob]);
                            assert(old_entries[oa].0@ != old_entries[ob].0@);
                        }
                    }
                    assert forall|q: Seq<char>| #[trigger] has_key(s, q) == (q != k && has_key(old_entries, q)) by {
                        if has_key(old_entries, q) && q != k {
                            let j = index_of(old_entries, q);
                            assert(j != i);
                            let nj = if j < i {
                                j
                            } else {
                                j - 1
                            };
                            assert(s[nj] == old_entries[j]);
                        }
                        if has_key(s, q) {
                            let j = index_of(s, q);
                            let oj = if j < i {
                                j
                            } else {
                                j + 1
                            };
                            assert(s[j] == old_entries[oj]);
                            assert(oj != i ==> old_entries[oj].0@ != old_entries[i as int].0@);
                        }
                    }
                    assert forall|q: Seq<char>| q != k && has_key(old_entries, q) implies entries_map(
                        s,
                    )[q] == entries_map(old_entries)[q] by {
                        let j = index_of(old_entries, q);
                        lemma_index_of(old_entries, j);
                        assert(j != i);
                        let nj = if j < i {
                            j
                        } else {
                            j - 1
                        };
                        assert(s[nj] == old_entries[j]);
                        lemma_index_of(s, nj);
                    }
                    assert(entries_map(s) =~= entries_map(old_entries).remove(k));
                }
                Some(v)
            },
            None => {
                assert(entries_map(old_entries) =~= entries_map(old_entries).remove(k));
                None
            },
        }
    }
}

} // verus!
