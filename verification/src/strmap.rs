//! A string-keyed map that keeps its entries in insertion order.
//!
//! Keys are distinct (the well-formedness invariant), so the map is viewed as a
//! `Map<Seq<char>, Seq<char>>`; the order of `pairs()` is the order in which
//! keys were first inserted.
use vstd::prelude::*;
use crate::text::str_eq;

verus! {

/// `k` is one of the strings of `keep`.
pub open spec fn key_in(keep: Seq<&str>, k: Seq<char>) -> bool {
    exists|i: int| 0 <= i < keep.len() && #[trigger] keep[i]@ == k
}

pub struct StrMap {
    entries: Vec<(String, String)>,
}

impl StrMap {
    /// The entries as character sequences, in insertion order.
    pub closed spec fn pairs(&self) -> Seq<(Seq<char>, Seq<char>)> {
        self.entries@.map_values(|e: (String, String)| (e.0@, e.1@))
    }

    /// No key occurs twice.
    pub open spec fn wf(&self) -> bool {
        forall|i: int, j: int|
            0 <= i < self.pairs().len() && 0 <= j < self.pairs().len() && i != j
                ==> #[trigger] self.pairs()[i].0 != #[trigger] self.pairs()[j].0
    }

    /// `k` is a key of the map.
    pub open spec fn has(&self, k: Seq<char>) -> bool {
        exists|i: int| 0 <= i < self.pairs().len() && #[trigger] self.pairs()[i].0 == k
    }

    /// The position of key `k` among the entries.
    pub open spec fn index_of(&self, k: Seq<char>) -> int {
        choose|i: int| 0 <= i < self.pairs().len() && #[trigger] self.pairs()[i].0 == k
    }

    pub open spec fn view(&self) -> Map<Seq<char>, Seq<char>> {
        Map::new(|k: Seq<char>| self.has(k), |k: Seq<char>| self.pairs()[self.index_of(k)].1)
    }

    pub proof fn lemma_index_of(&self, k: Seq<char>, i: int)
        requires
            self.wf(),
            0 <= i < self.pairs().len(),
            self.pairs()[i].0 == k,
        ensures
            self.has(k),
            self.index_of(k) == i,
            self@.contains_key(k),
            self@[k] == self.pairs()[i].1,
    {
        assert(self.has(k));
        let j = self.index_of(k);
        assert(0 <= j < self.pairs().len() && self.pairs()[j].0 == k);
        if j != i {
            assert(self.pairs()[i].0 != self.pairs()[j].0);
        }
    }

    /// An empty map.
    pub fn new() -> (m: Self)
        ensures
            m.wf(),
            m.pairs().len() == 0,
            m@ == Map::<Seq<char>, Seq<char>>::empty(),
    {
        let m = StrMap { entries: Vec::new() };
        assert(m@ =~= Map::<Seq<char>, Seq<char>>::empty());
        m
    }

    /// Number of entries.
    pub fn len(&self) -> (n: usize)
        ensures
            n == self.pairs().len(),
    {
        self.entries.len()
    }

    /// The map has no entry.
    pub fn is_empty(&self) -> (b: bool)
        ensures
            b == (self.pairs().len() == 0),
            b == (self@ == Map::<Seq<char>, Seq<char>>::empty()),
    {
        if self.entries.len() == 0 {
            assert(self@ =~= Map::<Seq<char>, Seq<char>>::empty());
            true
        } else {
            assert(self@.contains_key(self.pairs()[0].0));
            false
        }
    }

    /// The key and value of entry `i`, in insertion order.
    pub fn entry(&self, i: usize) -> (r: (&String, &String))
        requires
            i < self.pairs().len(),
        ensures
            r.0@ == self.pairs()[i as int].0,
            r.1@ == self.pairs()[i as int].1,
    {
        let e = &self.entries[i];
        (&e.0, &e.1)
    }

    /// Position of key `k`, if present.
    pub fn position(&self, k: &str) -> (r: Option<usize>)
        requires
            self.wf(),
        ensures
            r matches Some(i) ==> i < self.pairs().len() && self.pairs()[i as int].0 == k@
                && self.index_of(k@) == i,
            r is None <==> !self.has(k@),
            r is None <==> !self@.contains_key(k@),
    {
        let mut i: usize = 0;
        while i < self.entries.len()
            invariant
                self.wf(),
                i <= self.pairs().len(),
                forall|j: int| 0 <= j < i ==> self.pairs()[j].0 != k@,
            decreases self.pairs().len() - i,
        {
            if str_eq(self.entries[i].0.as_str(), k) {
                proof {
                    self.lemma_index_of(k@, i as int);
                }
                return Some(i);
            }
            i = i + 1;
        }
        None
    }

    /// The value stored under `k`.
    pub fn get(&self, k: &str) -> (r: Option<&String>)
        requires
            self.wf(),
        ensures
            r matches Some(v) ==> self@.contains_key(k@) && v@ == self@[k@],
            r is None <==> !self@.contains_key(k@),
    {
        match self.position(k) {
            Some(i) => {
                proof {
                    self.lemma_index_of(k@, i as int);
                }
                Some(&self.entries[i].1)
            },
            None => None,
        }
    }

    /// `k` is a key of the map.
    pub fn contains_key(&self, k: &str) -> (b: bool)
        requires
            self.wf(),
        ensures
            b == self@.contains_key(k@),
    {
        self.position(k).is_some()
    }

    /// Set the value of `k`; a new key goes after all others.
    pub fn insert(&mut self, k: String, v: String)
        requires
            old(self).wf(),
        ensures
            final(self).wf(),
            final(self)@ == old(self)@.insert(k@, v@),
            old(self).has(k@) ==> final(self).pairs() == old(self).pairs().update(
                old(self).index_of(k@),
                (k@, v@),
            ),
            !old(self).has(k@) ==> final(self).pairs() == old(self).pairs().push((k@, v@)),
    {
        let ghost old_self = *self;
        match self.position(k.as_str()) {
            Some(i) => {
                self.entries.set(i, (k, v));
                proof {
                    assert(self.pairs() =~= old_self.pairs().update(i as int, (k@, v@)));
                    assert forall|k2: Seq<char>| old_self@.insert(k@, v@).contains_key(k2)
                        implies #[trigger] self@.contains_key(k2) by {
                        if k2 != k@ {
                            assert(old_self.has(k2));
                            let j = old_self.index_of(k2);
                            assert(old_self.pairs()[j].0 == k2);
                            assert(j != i);
                            assert(self.pairs()[j].0 == k2);
                        } else {
                            assert(self.pairs()[i as int].0 == k2);
                        }
                    }
                    assert forall|k2: Seq<char>| #[trigger] self@.contains_key(k2)
                        implies old_self@.insert(k@, v@).contains_key(k2)
                        && self@[k2] == old_self@.insert(k@, v@)[k2] by {
                        {
                            let j = self.index_of(k2);
                            self.lemma_index_of(k2, j);
                            if j != i {
                                old_self.lemma_index_of(k2, j);
                            }
                        }
                    }
                    assert(self@ =~= old_self@.insert(k@, v@));
                }
            },
            None => {
                self.entries.push((k, v));
                proof {
                    assert(self.pairs() =~= old_self.pairs().push((k@, v@)));
                    let n = old_self.pairs().len() as int;
                    assert forall|k2: Seq<char>| old_self@.insert(k@, v@).contains_key(k2)
                        implies #[trigger] self@.contains_key(k2) by {
                        if k2 != k@ {
                            assert(old_self.has(k2));
                            let j = old_self.index_of(k2);
                            assert(old_self.pairs()[j].0 == k2);
                            assert(self.pairs()[j].0 == k2);
                        } else {
                            assert(self.pairs()[n].0 == k2);
                        }
                    }
                    assert forall|k2: Seq<char>| #[trigger] self@.contains_key(k2)
                        implies old_self@.insert(k@, v@).contains_key(k2)
                        && self@[k2] == old_self@.insert(k@, v@)[k2] by {
                        {
                            let j = self.index_of(k2);
                            self.lemma_index_of(k2, j);
                            if j != n {
                                old_self.lemma_index_of(k2, j);
                            }
                        }
                    }
                    assert(self@ =~= old_self@.insert(k@, v@));
                }
            },
        }
    }

    /// Keep only the entries whose key is one of `keep`, in their order.
    pub fn retain_keys(&mut self, keep: &[&str])
        requires
            old(self).wf(),
        ensures
            final(self).wf(),
            final(self)@ == old(self)@.restrict(Set::new(|k: Seq<char>| key_in(keep@, k))),
    {
        let ghost keepset = Set::new(|k: Seq<char>| key_in(keep@, k));
        let ghost old_self = *self;
        let mut kept: Vec<(String, String)> = Vec::new();
        let mut idx: Ghost<Seq<int>> = Ghost(Seq::empty());
        let n = self.entries.len();
        let mut i: usize = 0;
        while i < n
            invariant
                *self == old_self,
                old_self.wf(),
                n == old_self.pairs().len(),
                i <= n,
                kept@.len() == idx@.len(),
                forall|a: int| 0 <= a < idx@.len() ==> 0 <= #[trigger] idx@[a] < i,
                forall|a: int, b: int| 0 <= a < b < idx@.len() ==> #[trigger] idx@[a] < #[trigger] idx@[b],
                forall|a: int| 0 <= a < idx@.len() ==> kept@[a].0@ == old_self.pairs()[idx@[a]].0
                    && kept@[a].1@ == old_self.pairs()[idx@[a]].1
                    && key_in(keep@, kept@[a].0@),
                forall|j: int| 0 <= j < i && key_in(keep@, old_self.pairs()[j].0)
                    ==> exists|a: int| 0 <= a < idx@.len() && idx@[a] == j,
            decreases n - i,
        {
            let mut found = false;
            let mut t: usize = 0;
            while t < keep.len()
                invariant
                    *self == old_self,
                    i < n == old_self.pairs().len(),
                    t <= keep@.len(),
                    found ==> key_in(keep@, old_self.pairs()[i as int].0),
                    !found ==> forall|q: int| 0 <= q < t ==> keep@[q]@ != old_self.pairs()[i as int].0,
                decreases keep@.len() - t,
            {
                if !found && str_eq(self.entries[i].0.as_str(), keep[t]) {
                    found = true;
                    assert(keep@[t as int]@ == old_self.pairs()[i as int].0);
                }
                t = t + 1;
            }
            let ghost old_idx = idx@;
            if found {
                let k = self.entries[i].0.clone();
                let v = self.entries[i].1.clone();
                kept.push((k, v));
                proof {
                    idx@ = idx@.push(i as int);
                }
            } else {
                proof {
                    if key_in(keep@, old_self.pairs()[i as int].0) {
                        let q = choose|q: int| 0 <= q < keep@.len()
                            && #[trigger] keep@[q]@ == old_self.pairs()[i as int].0;
                        assert(keep@[q]@ != old_self.pairs()[i as int].0);
                    }
                }
            }
            proof {
                assert forall|j: int| 0 <= j < i + 1 && key_in(keep@, old_self.pairs()[j].0)
                    implies exists|a: int| 0 <= a < idx@.len() && idx@[a] == j by {
                    if j < i {
                        let a = choose|a: int| 0 <= a < old_idx.len() && old_idx[a] == j;
                        assert(idx@[a] == j);
                    } else {
                        assert(found);
                        assert(idx@[idx@.len() - 1] == j);
                    }
                }
            }
            i = i + 1;
        }
        self.entries = kept;
        proof {
            assert forall|a: int, b: int|
                0 <= a < self.pairs().len() && 0 <= b < self.pairs().len() && a != b
                implies #[trigger] self.pairs()[a].0 != #[trigger] self.pairs()[b].0 by {
                if a < b {
                    assert(idx@[a] < idx@[b]);
                } else {
                    assert(idx@[b] < idx@[a]);
                }
            }
            let target = old_self@.restrict(keepset);
            assert(forall|k: Seq<char>| keepset.contains(k) == key_in(keep@, k));
            assert forall|k: Seq<char>| target.contains_key(k) implies #[trigger] self@.contains_key(k) by {
                assert(old_self.has(k));
                let j = old_self.index_of(k);
                assert(old_self.pairs()[j].0 == k);
                assert(key_in(keep@, old_self.pairs()[j].0));
                let a = choose|a: int| 0 <= a < idx@.len() && idx@[a] == j;
                assert(self.pairs()[a].0 == k);
            }
            assert forall|k: Seq<char>| #[trigger] self@.contains_key(k)
                implies target.contains_key(k) && self@[k] == target[k] by {
                {
                    let a = self.index_of(k);
                    self.lemma_index_of(k, a);
                    old_self.lemma_index_of(k, idx@[a]);
                }
            }
            assert(self@ =~= target);
        }
    }
}

} // verus!
