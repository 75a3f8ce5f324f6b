//! A table from resource kinds to counts, with the semantics of a hash map:
//! a kind is either absent or present with a count.

use vstd::prelude::*;
use crate::resources::{lemma_positions, resource_at, resource_index, resource_pos, ResourceType, N_RESOURCES};

verus! {

/// A map from resource kinds to counts.
pub struct ResourceTable {
    slots: Vec<Option<usize>>,
}

/// Number of kinds present among the first `n` positions.
pub open spec fn present_upto(m: Map<ResourceType, usize>, n: int) -> nat
    decreases n,
{
    if n <= 0 {
        0
    } else {
        present_upto(m, n - 1) + if m.contains_key(resource_at(n - 1)) { 1nat } else { 0nat }
    }
}

/// Number of kinds present in the map.
pub open spec fn present_count(m: Map<ResourceType, usize>) -> nat {
    present_upto(m, N_RESOURCES as int)
}

/// The count of a kind, zero when absent.
pub open spec fn count_of(m: Map<ResourceType, usize>, r: ResourceType) -> nat {
    if m.contains_key(r) { m[r] as nat } else { 0 }
}

impl View for ResourceTable {
    type V = Map<ResourceType, usize>;

    closed spec fn view(&self) -> Map<ResourceType, usize> {
        Map::new(
            |r: ResourceType| self.slots@[resource_pos(r)] is Some,
            |r: ResourceType| self.slots@[resource_pos(r)]->Some_0,
        )
    }
}

impl ResourceTable {
    /// The table is well formed: one slot per resource kind.
    pub closed spec fn wf(&self) -> bool {
        self.slots@.len() == N_RESOURCES
    }

    /// An empty table.
    pub fn new() -> (t: Self)
        ensures
            t.wf(),
            t@ == Map::<ResourceType, usize>::empty(),
    {
        let mut slots: Vec<Option<usize>> = Vec::new();
        let mut i: usize = 0;
        while i < N_RESOURCES
            invariant
                i <= N_RESOURCES,
                slots@.len() == i,
                forall|j: int| 0 <= j < i ==> slots@[j] is None,
            decreases N_RESOURCES - i,
        {
            slots.push(None);
            i = i + 1;
        }
        let t = ResourceTable { slots };
        proof {
            lemma_positions();
            assert(t@ =~= Map::<ResourceType, usize>::empty());
        }
        t
    }

    /// The count of a kind, if present.
    pub fn get(&self, r: ResourceType) -> (o: Option<usize>)
        requires
            self.wf(),
        ensures
            o == (if self@.contains_key(r) { Some(self@[r]) } else { None }),
    {
        proof {
            lemma_positions();
        }
        self.slots[resource_index(r)]
    }

    /// Whether a kind is present.
    pub fn contains_key(&self, r: ResourceType) -> (b: bool)
        requires
            self.wf(),
        ensures
            b == self@.contains_key(r),
    {
        self.get(r).is_some()
    }

    /// The count of a kind, zero when absent.
    pub fn count(&self, r: ResourceType) -> (n: usize)
        requires
            self.wf(),
        ensures
            n == count_of(self@, r),
    {
        match self.get(r) {
            Some(n) => n,
            None => 0,
        }
    }

    /// Sets the count of a kind (inserting it when absent).
    pub fn insert(&mut self, r: ResourceType, n: usize)
        requires
            old(self).wf(),
        ensures
            final(self).wf(),
            final(self)@ == old(self)@.insert(r, n),
    {
        proof {
            lemma_positions();
        }
        let i = resource_index(r);
        self.slots.set(i, Some(n));
        proof {
            assert(self@ =~= old(self)@.insert(r, n)) by {
                assert forall|x: ResourceType| #[trigger] self@.contains_key(x) == old(self)@.insert(r, n).contains_key(x) by {
                    if x != r {
                        assert(resource_pos(x) != resource_pos(r));
                    }
                }
                assert forall|x: ResourceType| #[trigger] self@.contains_key(x) implies self@[x] == old(self)@.insert(r, n)[x] by {
                    if x != r {
                        assert(resource_pos(x) != resource_pos(r));
                    }
                }
            }
        }
    }

    /// Number of kinds present.
    pub fn len(&self) -> (n: usize)
        requires
            self.wf(),
        ensures
            n == present_count(self@),
    {
        let mut n: usize = 0;
        let mut i: usize = 0;
        proof {
            lemma_positions();
        }
        while i < N_RESOURCES
            invariant
                self.wf(),
                i <= N_RESOURCES,
                n == present_upto(self@, i as int),
                n <= i,
            decreases N_RESOURCES - i,
        {
            proof {
                lemma_positions();
                assert(self@.contains_key(resource_at(i as int)) == (self.slots@[i as int] is Some));
            }
            if self.slots[i].is_some() {
                n = n + 1;
            }
            i = i + 1;
        }
        n
    }

    /// A copy of the table.
    pub fn copy(&self) -> (t: Self)
        requires
            self.wf(),
        ensures
            t.wf(),
            t@ == self@,
    {
        let mut slots: Vec<Option<usize>> = Vec::new();
        let mut i: usize = 0;
        while i < N_RESOURCES
            invariant
                self.wf(),
                i <= N_RESOURCES,
                slots@ == self.slots@.subrange(0, i as int),
            decreases N_RESOURCES - i,
        {
            slots.push(self.slots[i]);
            i = i + 1;
            proof {
                assert(slots@ =~= self.slots@.subrange(0, i as int));
            }
        }
        proof {
            assert(slots@ =~= self.slots@);
        }
        ResourceTable { slots }
    }
}

} // verus!
