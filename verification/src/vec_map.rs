//! A small map from tags to values, kept as a list of entries so that its
//! order is the order of insertion and never depends on hashing.
use vstd::prelude::*;
use crate::seq_util::{first_index, lemma_first_index_found, lemma_first_index_none};

verus! {

/// A map from tags to values.
#[derive(Clone, Debug)]
pub struct VecMap<V> {
    pub entries: Vec<(u64, V)>,
}

pub open spec fn has_key<V>(k: u64) -> spec_fn((u64, V)) -> bool {
    |e: (u64, V)| e.0 == k
}

pub open spec fn keys_unique<V>(s: Seq<(u64, V)>) -> bool {
    forall|i: int, j: int| 0 <= i < j < s.len() ==> #[trigger] s[i].0 != #[trigger] s[j].0
}

pub open spec fn key_index<V>(s: Seq<(u64, V)>, k: u64) -> Option<int> {
    first_index(s, has_key::<V>(k))
}

/// The map that a list of entries with distinct keys stands for.
pub open spec fn entries_map<V>(s: Seq<(u64, V)>) -> Map<u64, V> {
    Map::new(|k: u64| key_index(s, k) is Some, |k: u64| s[key_index(s, k).unwrap()].1)
}

/// With distinct keys, an entry's place is the place of its key.
pub proof fn lemma_key_index<V>(s: Seq<(u64, V)>, k: u64)
    requires
        keys_unique(s),
    ensures
        forall|i: int| 0 <= i < s.len() && s[i].0 == k ==> key_index(s, k) == Some(i),
        (forall|i: int| 0 <= i < s.len() ==> s[i].0 != k) ==> key_index(s, k) is None,
        key_index(s, k) matches Some(i) ==> 0 <= i < s.len() && s[i].0 == k,
{
    assert forall|i: int| 0 <= i < s.len() && s[i].0 == k implies key_index(s, k) == Some(i) by {
        assert forall|j: int| 0 <= j < i implies !has_key::<V>(k)(#[trigger] s[j]) by {}
        lemma_first_index_found(s, has_key::<V>(k), i);
    }
    if forall|i: int| 0 <= i < s.len() ==> s[i].0 != k {
        assert forall|j: int| 0 <= j < s.len() implies !has_key::<V>(k)(#[trigger] s[j]) by {}
        lemma_first_index_none(s, has_key::<V>(k));
    }
    crate::seq_util::lemma_first_index_spec(s, has_key::<V>(k));
}

impl<V: Copy> View for VecMap<V> {
    type V = Map<u64, V>;

    open spec fn view(&self) -> Map<u64, V> {
        entries_map(self.entries@)
    }
}

impl<V: Copy> VecMap<V> {
    /// Every key appears once.
    pub open spec fn wf(&self) -> bool {
        keys_unique(self.entries@)
    }

    /// An empty map.
    pub fn new() -> (m: Self)
        ensures
            m.wf(),
            m@ == Map::<u64, V>::empty(),
    {
        let m = VecMap { entries: Vec::new() };
        assert(m@ =~= Map::<u64, V>::empty());
        m
    }

    fn find(&self, k: u64) -> (r: Option<usize>)
        requires
            self.wf(),
        ensures
            r matches Some(i) ==> i < self.entries@.len() && self.entries@[i as int].0 == k,
            r is None <==> !self@.dom().contains(k),
            r matches Some(i) ==> self@[k] == self.entries@[i as int].1,
    {
        let mut i: usize = 0;
        while i < self.entries.len()
            invariant
                i <= self.entries.len(),
                keys_unique(self.entries@),
                forall|j: int| 0 <= j < i ==> self.entries@[j].0 != k,
            decreases self.entries.len() - i,
        {
            if self.entries[i].0 == k {
                proof {
                    lemma_key_index(self.entries@, k);
                }
                return Some(i);
            }
            i += 1;
        }
        proof {
            lemma_key_index(self.entries@, k);
        }
        None
    }

    /// Whether the map holds a key.
    pub fn contains_key(&self, k: u64) -> (r: bool)
        requires
            self.wf(),
        ensures
            r == self@.dom().contains(k),
    {
        self.find(k).is_some()
    }

    /// The value for a key.
    pub fn get(&self, k: u64) -> (r: Option<V>)
        requires
            self.wf(),
        ensures
            r is Some <==> self@.dom().contains(k),
            r matches Some(v) ==> v == self@[k],
    {
        match self.find(k) {
            Some(i) => Some(self.entries[i].1),
            None => None,
        }
    }

    /// Number of keys.
    pub fn len(&self) -> (r: usize)
        requires
            self.wf(),
        ensures
            r == self.entries@.len(),
    {
        self.entries.len()
    }

    /// Sets the value for a key: an existing entry keeps its place, a new one goes last.
    pub fn insert(&mut self, k: u64, v: V)
        requires
            old(self).wf(),
        ensures
            final(self).wf(),
            final(self)@ == old(self)@.insert(k, v),
    {
        let ghost old_entries = self.entries@;
        match self.find(k) {
            Some(i) => {
                self.entries.set(i, (k, v));
                proof {
                    let s = self.entries@;
                    assert(keys_unique(s)) by {
                        assert forall|a: int, b: int| 0 <= a < b < s.len() implies #[trigger] s[a].0
                            != #[trigger] s[b].0 by {
                            assert(s[a].0 == old_entries[a].0 && s[b].0 == old_entries[b].0);
                        }
                    }
                    assert forall|key: u64| #[trigger] entries_map(s).dom().contains(key) == old_entries_dom(old_entries, k, key) by {
                        lemma_key_index(s, key);
                        lemma_key_index(old_entries, key);
                        if key_index(old_entries, key) is Some {
                            let j = key_index(old_entries, key).unwrap();
                            assert(s[j].0 == key);
                        }
                        if key_index(s, key) is Some {
                            let j = key_index(s, key).unwrap();
                            assert(old_entries[j].0 == key);
                        }
                    }
                    assert(entries_map(s) =~= entries_map(old_entries).insert(k, v)) by {
                        assert forall|key: u64| #[trigger] entries_map(s).dom().contains(key) implies entries_map(s)[key]
                            == entries_map(old_entries).insert(k, v)[key] by {
                            lemma_key_index(s, key);
                            lemma_key_index(old_entries, key);
                            if key != k {
                                let j = key_index(s, key).unwrap();
                                assert(old_entries[j].0 == key);
                            }
                        }
                    }
                }
            },
            None => {
                self.entries.push((k, v));
                proof {
                    let s = self.entries@;
                    lemma_key_index(old_entries, k);
                    assert(keys_unique(s)) by {
                        assert forall|a: int, b: int| 0 <= a < b < s.len() implies #[trigger] s[a].0
                            != #[trigger] s[b].0 by {
                            if b == s.len() - 1 {
                                assert(s[a] == old_entries[a]);
                                assert(old_entries[a].0 != k);
                            } else {
                                assert(s[a] == old_entries[a] && s[b] == old_entries[b]);
                            }
                        }
                    }
                    assert forall|key: u64| #[trigger] entries_map(s).dom().contains(key) == old_entries_dom(old_entries, k, key) by {
                        lemma_key_index(s, key);
                        lemma_key_index(old_entries, key);
                        if key_index(old_entries, key) is Some {
                            let j = key_index(old_entries, key).unwrap();
                            assert(s[j].0 == key);
                        }
                        if key_index(s, key) is Some {
                            let j = key_index(s, key).unwrap();
                            if j < old_entries.len() {
                                assert(old_entries[j].0 == key);
                            }
                        }
                        assert(s[old_entries.len() as int].0 == k);
                    }
                    assert(entries_map(s) =~= entries_map(old_entries).insert(k, v)) by {
                        assert forall|key: u64| #[trigger] entries_map(s).dom().contains(key) implies entries_map(s)[key]
                            == entries_map(old_entries).insert(k, v)[key] by {
                            lemma_key_index(s, key);
                            lemma_key_index(old_entries, key);
                            if key != k {
                                let j = key_index(s, key).unwrap();
                                if j == old_entries.len() {
                                    assert(s[j].0 == k);
                                }
                                assert(old_entries[j].0 == key);
                            } else {
                                assert(s[old_entries.len() as int].0 == k);
                            }
                        }
                    }
                }
            },
        }
    }

    /// Removes a key, if present.
    pub fn remove(&mut self, k: u64)
        requires
            old(self).wf(),
        ensures
            final(self).wf(),
            final(self)@ == old(self)@.remove(k),
    {
        let ghost old_entries = self.entries@;
        match self.find(k) {
            Some(i) => {
                self.entries.remove(i);
                proof {
                    let s = self.entries@;
                    assert forall|a: int| 0 <= a < s.len() implies #[trigger] s[a] == (if a < i {
                        old_entries[a]
                    } else {
                        old_entries[a + 1]
                    }) by {}
                    assert(keys_unique(s)) by {
                        assert forall|a: int, b: int| 0 <= a < b < s.len() implies #[trigger] s[a].0
                            != #[trigger] s[b].0 by {
                            let a2 = if a < i {
                                a
                            } else {
                                a + 1
                            };
                            let b2 = if b < i {
                                b
                            } else {
                                b + 1
                            };
                            assert(s[a] == old_entries[a2] && s[b] == old_entries[b2]);
                        }
                    }
                    assert forall|key: u64| #[trigger] entries_map(s).dom().contains(key) == (entries_map(
                        old_entries,
                    ).dom().contains(key) && key != k) by {
                        lemma_key_index(s, key);
                        lemma_key_index(old_entries, key);
                        if key_index(old_entries, key) is Some && key != k {
                            let j = key_index(old_entries, key).unwrap();
                            if j < i {
                                assert(s[j].0 == key);
                            } else {
                                assert(s[j - 1].0 == key);
                            }
                        }
                        if key_index(s, key) is Some {
                            let j = key_index(s, key).unwrap();
                            if j < i {
                                assert(old_entries[j].0 == key);
                            } else {
                                assert(old_entries[j + 1].0 == key);
                            }
                        }
                    }
                    assert(entries_map(s) =~= entries_map(old_entries).remove(k)) by {
                        assert forall|key: u64| #[trigger] entries_map(s).dom().contains(key) implies entries_map(s)[key]
                            == entries_map(old_entries)[key] by {
                            lemma_key_index(s, key);
                            lemma_key_index(old_entries, key);
                            let j = key_index(s, key).unwrap();
                            if j < i {
                                assert(old_entries[j].0 == key);
                            } else {
                                assert(old_entries[j + 1].0 == key);
                            }
                        }
                    }
                }
            },
            None => {
                assert(entries_map(old_entries) =~= entries_map(old_entries).remove(k));
            },
        }
    }

    /// The keys, each once, in the map's order.
    pub fn keys(&self) -> (r: Vec<u64>)
        requires
            self.wf(),
        ensures
            r@.len() == self.entries@.len(),
            forall|i: int| 0 <= i < r@.len() ==> #[trigger] r@[i] == self.entries@[i].0,
            forall|k: u64| r@.contains(k) <==> self@.dom().contains(k),
    {
        let mut out: Vec<u64> = Vec::new();
        let mut i: usize = 0;
        while i < self.entries.len()
            invariant
                i <= self.entries.len(),
                out@.len() == i,
                forall|j: int| 0 <= j < i ==> #[trigger] out@[j] == self.entries@[j].0,
            decreases self.entries.len() - i,
        {
            out.push(self.entries[i].0);
            i += 1;
        }
        proof {
            assert forall|k: u64| out@.contains(k) <==> self@.dom().contains(k) by {
                lemma_key_index(self.entries@, k);
                if out@.contains(k) {
                    let j = choose|j: int| 0 <= j < out@.len() && out@[j] == k;
                    assert(self.entries@[j].0 == k);
                }
                if self@.dom().contains(k) {
                    let j = key_index(self.entries@, k).unwrap();
                    assert(out@[j] == k);
                }
            }
        }
        out
    }
}

pub open spec fn old_entries_dom<V>(s: Seq<(u64, V)>, k: u64, key: u64) -> bool {
    entries_map(s).dom().contains(key) || key == k
}

} // verus!
