//! A map from planet ids to values, kept as a list of entries with distinct
//! ids in the order the ids were first added.

use vstd::prelude::*;

verus! {

/// Index `i` holds the entry of id `k`.
pub open spec fn holds_key<V>(s: Seq<(u32, V)>, k: u32, i: int) -> bool {
    0 <= i < s.len() && s[i].0 == k
}

/// A map from ids to values.
pub struct IdMap<V> {
    entries: Vec<(u32, V)>,
}

impl<V> View for IdMap<V> {
    type V = Map<u32, V>;

    closed spec fn view(&self) -> Map<u32, V> {
        Map::new(
            |k: u32| exists|i: int| holds_key(self.entries@, k, i),
            |k: u32| self.entries@[choose|i: int| holds_key(self.entries@, k, i)].1,
        )
    }
}

impl<V> IdMap<V> {
    /// Each id has one entry.
    pub closed spec fn wf(&self) -> bool {
        forall|i: int, j: int| 0 <= i < j < self.entries@.len() ==> self.entries@[i].0 != self.entries@[j].0
    }

    /// The ids, in the order they were first added.
    pub closed spec fn key_seq(&self) -> Seq<u32> {
        Seq::new(self.entries@.len(), |i: int| self.entries@[i].0)
    }

    proof fn lemma_at(&self, i: int)
        requires
            self.wf(),
            0 <= i < self.entries@.len(),
        ensures
            self@.contains_key(self.entries@[i].0),
            self@[self.entries@[i].0] == self.entries@[i].1,
    {
        let k = self.entries@[i].0;
        assert(holds_key(self.entries@, k, i));
        let j = choose|j: int| holds_key(self.entries@, k, j);
        if j != i {
            if j < i {
                assert(self.entries@[j].0 != self.entries@[i].0);
            } else {
                assert(self.entries@[i].0 != self.entries@[j].0);
            }
        }
    }

    proof fn lemma_keys(&self)
        requires
            self.wf(),
        ensures
            self.key_seq().no_duplicates(),
            self.key_seq().len() == self.entries@.len(),
            forall|k: u32| #[trigger] self@.contains_key(k) <==> self.key_seq().contains(k),
            self@.dom().finite(),
            self@.dom().len() == self.entries@.len(),
    {
        let ks = self.key_seq();
        assert forall|k: u32| #[trigger] self@.contains_key(k) <==> ks.contains(k) by {
            if self@.contains_key(k) {
                let i = choose|i: int| holds_key(self.entries@, k, i);
                assert(ks[i] == k);
            }
            if ks.contains(k) {
                let i = choose|i: int| 0 <= i < ks.len() && ks[i] == k;
                assert(holds_key(self.entries@, k, i));
            }
        }
        assert(self@.dom() =~= ks.to_set());
        ks.unique_seq_to_set();
    }

    /// An empty map.
    pub fn new() -> (m: Self)
        ensures
            m.wf(),
            m@ == Map::<u32, V>::empty(),
    {
        let m = IdMap { entries: Vec::new() };
        proof {
            assert(m@ =~= Map::<u32, V>::empty());
        }
        m
    }

    fn index_of(&self, k: u32) -> (r: Option<usize>)
        requires
            self.wf(),
        ensures
            match r {
                Some(i) => holds_key(self.entries@, k, i as int),
                None => !self@.contains_key(k),
            },
    {
        let mut i: usize = 0;
        while i < self.entries.len()
            invariant
                i <= self.entries@.len(),
                forall|j: int| 0 <= j < i ==> self.entries@[j].0 != k,
            decreases self.entries@.len() - i,
        {
            if self.entries[i].0 == k {
                return Some(i);
            }
            i = i + 1;
        }
        None
    }

    /// Whether an id has an entry.
    pub fn contains_key(&self, k: u32) -> (b: bool)
        requires
            self.wf(),
        ensures
            b == self@.contains_key(k),
    {
        self.index_of(k).is_some()
    }

    /// The value of an id, if any.
    pub fn get(&self, k: u32) -> (r: Option<&V>)
        requires
            self.wf(),
        ensures
            match r {
                Some(v) => self@.contains_key(k) && *v == self@[k],
                None => !self@.contains_key(k),
            },
    {
        match self.index_of(k) {
            Some(i) => {
                proof {
                    self.lemma_at(i as int);
                }
                Some(&self.entries[i].1)
            },
            None => None,
        }
    }

    /// Sets the value of an id, adding the id when it has no entry.
    pub fn insert(&mut self, k: u32, v: V)
        requires
            old(self).wf(),
        ensures
            final(self).wf(),
            final(self)@ == old(self)@.insert(k, v),
            old(self)@.contains_key(k) ==> final(self).key_seq() == old(self).key_seq(),
            !old(self)@.contains_key(k) ==> final(self).key_seq() == old(self).key_seq().push(k),
    {
        let ghost s0 = self.entries@;
        match self.index_of(k) {
            Some(i) => {
                self.entries.remove(i);
                self.entries.insert(i, (k, v));
                proof {
                    assert(self.entries@ =~= s0.update(i as int, (k, v)));
                    assert(self.key_seq() =~= old(self).key_seq());
                }
            },
            None => {
                self.entries.push((k, v));
                proof {
                    assert(self.entries@ =~= s0.push((k, v)));
                    assert(forall|j: int| 0 <= j < s0.len() ==> s0[j].0 != k) by {
                        assert forall|j: int| 0 <= j < s0.len() implies s0[j].0 != k by {
                            if s0[j].0 == k {
                                assert(holds_key(s0, k, j));
                            }
                        }
                    }
                    assert(self.key_seq() =~= old(self).key_seq().push(k));
                }
            },
        }
        proof {
            let s1 = self.entries@;
            assert forall|x: u32| #[trigger] self@.contains_key(x) <==> old(self)@.insert(k, v).contains_key(x) by {
                if self@.contains_key(x) {
                    let j = choose|j: int| holds_key(s1, x, j);
                    if x != k {
                        assert(holds_key(s0, x, j));
                    }
                }
                if old(self)@.contains_key(x) {
                    let j = choose|j: int| holds_key(s0, x, j);
                    assert(holds_key(s1, x, j));
                }
                if x == k {
                    if old(self)@.contains_key(k) {
                        let j = choose|j: int| holds_key(s0, k, j);
                        assert(holds_key(s1, k, j));
                    } else {
                        assert(holds_key(s1, k, s0.len() as int));
                    }
                }
            }
            assert forall|x: u32| #[trigger] self@.contains_key(x) implies self@[x] == old(self)@.insert(k, v)[x] by {
                let j = choose|j: int| holds_key(s1, x, j);
                self.lemma_at(j);
                if x != k {
                    assert(holds_key(s0, x, j));
                    old(self).lemma_at(j);
                }
            }
            assert(self@ =~= old(self)@.insert(k, v));
        }
    }

    /// Takes out the value of an id, if any; the id keeps its entry, with
    /// `v` as value, so the order of the ids does not change.
    pub fn replace(&mut self, k: u32, v: V) -> (r: Option<V>)
        requires
            old(self).wf(),
        ensures
            final(self).wf(),
            match r {
                Some(x) => old(self)@.contains_key(k) && x == old(self)@[k] && final(self)@ == old(self)@.insert(k, v)
                    && final(self).key_seq() == old(self).key_seq(),
                None => !old(self)@.contains_key(k) && final(self)@ == old(self)@ && final(self).key_seq() == old(self).key_seq(),
            },
    {
        let ghost s0 = self.entries@;
        match self.index_of(k) {
            Some(i) => {
                let (_, x) = self.entries.remove(i);
                self.entries.insert(i, (k, v));
                proof {
                    assert(self.entries@ =~= s0.update(i as int, (k, v)));
                    assert(self.key_seq() =~= old(self).key_seq());
                    old(self).lemma_at(i as int);
                    let s1 = self.entries@;
                    assert forall|x: u32| #[trigger] self@.contains_key(x) <==> old(self)@.insert(k, v).contains_key(x) by {
                        if self@.contains_key(x) {
                            let j = choose|j: int| holds_key(s1, x, j);
                            assert(holds_key(s0, x, j));
                        }
                        if old(self)@.contains_key(x) {
                            let j = choose|j: int| holds_key(s0, x, j);
                            assert(holds_key(s1, x, j));
                        }
                    }
                    assert forall|x: u32| #[trigger] self@.contains_key(x) implies self@[x] == old(self)@.insert(k, v)[x] by {
                        let j = choose|j: int| holds_key(s1, x, j);
                        self.lemma_at(j);
                        if x != k {
                            old(self).lemma_at(j);
                        }
                    }
                    assert(self@ =~= old(self)@.insert(k, v));
                }
                Some(x)
            },
            None => None,
        }
    }

    /// The ids, in the order they were first added.
    pub fn keys(&self) -> (r: Vec<u32>)
        requires
            self.wf(),
        ensures
            r@ == self.key_seq(),
            r@.no_duplicates(),
            forall|k: u32| #[trigger] self@.contains_key(k) <==> r@.contains(k),
    {
        let mut r: Vec<u32> = Vec::new();
        let mut i: usize = 0;
        while i < self.entries.len()
            invariant
                i <= self.entries@.len(),
                r@ == self.key_seq().subrange(0, i as int),
            decreases self.entries@.len() - i,
        {
            r.push(self.entries[i].0);
            i = i + 1;
            proof {
                assert(r@ =~= self.key_seq().subrange(0, i as int));
            }
        }
        proof {
            assert(r@ =~= self.key_seq());
            self.lemma_keys();
        }
        r
    }

    /// Number of ids.
    pub fn len(&self) -> (n: usize)
        requires
            self.wf(),
        ensures
            n == self@.dom().len(),
            n == self.key_seq().len(),
    {
        proof {
            self.lemma_keys();
        }
        self.entries.len()
    }
}

} // verus!
