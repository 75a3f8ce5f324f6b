//! A bag of resources, kept per resource kind with the semantics of a hash
//! map from kinds to lists: a kind is either absent or present with a list,
//! possibly empty, of the items stored under it. The items themselves are
//! opaque to the library.

use vstd::prelude::*;
use crate::resources::{lemma_positions, resource_from_index, resource_index, resource_pos, ResourceType, N_RESOURCES};
use crate::table::ResourceTable;

verus! {

/// The items stored under a kind; empty when the kind is absent.
pub open spec fn held<T>(m: Map<ResourceType, Seq<T>>, r: ResourceType) -> Seq<T> {
    if m.contains_key(r) { m[r] } else { Seq::empty() }
}

/// The map after `x` was stored under kind `r`.
pub open spec fn pushed<T>(m: Map<ResourceType, Seq<T>>, r: ResourceType, x: T) -> Map<ResourceType, Seq<T>> {
    m.insert(r, held(m, r).push(x))
}

/// The map after the last item of kind `r` was taken.
pub open spec fn after_take_one<T>(m: Map<ResourceType, Seq<T>>, r: ResourceType) -> Map<ResourceType, Seq<T>> {
    m.insert(r, held(m, r).drop_last())
}

/// One item of kind `a` and then one of kind `b` can be taken.
pub open spec fn can_take_two<T>(m: Map<ResourceType, Seq<T>>, a: ResourceType, b: ResourceType) -> bool {
    if a == b {
        held(m, a).len() >= 2
    } else {
        held(m, a).len() >= 1 && held(m, b).len() >= 1
    }
}

/// Items kept per resource kind.
pub struct ResourceBag<T> {
    present: Vec<bool>,
    slots: Vec<Vec<T>>,
}

impl<T> View for ResourceBag<T> {
    type V = Map<ResourceType, Seq<T>>;

    closed spec fn view(&self) -> Map<ResourceType, Seq<T>> {
        Map::new(
            |r: ResourceType| self.present@[resource_pos(r)],
            |r: ResourceType| self.slots@[resource_pos(r)]@,
        )
    }
}

impl<T> ResourceBag<T> {
    /// The bag is well formed: one slot per resource kind.
    pub closed spec fn wf(&self) -> bool {
        &&& self.present@.len() == N_RESOURCES
        &&& self.slots@.len() == N_RESOURCES
    }

    /// An empty bag.
    pub fn new() -> (b: Self)
        ensures
            b.wf(),
            b@ == Map::<ResourceType, Seq<T>>::empty(),
    {
        let mut present: Vec<bool> = Vec::new();
        let mut slots: Vec<Vec<T>> = Vec::new();
        let mut i: usize = 0;
        while i < N_RESOURCES
            invariant
                i <= N_RESOURCES,
                present@.len() == i,
                slots@.len() == i,
                forall|j: int| 0 <= j < i ==> !present@[j],
            decreases N_RESOURCES - i,
        {
            present.push(false);
            slots.push(Vec::new());
            i = i + 1;
        }
        let b = ResourceBag { present, slots };
        proof {
            lemma_positions();
            assert(b@ =~= Map::<ResourceType, Seq<T>>::empty());
        }
        b
    }

    /// Stores an item under a kind, adding the kind when it is absent.
    pub fn push(&mut self, r: ResourceType, item: T)
        requires
            old(self).wf(),
        ensures
            final(self).wf(),
            final(self)@ == old(self)@.insert(r, held(old(self)@, r).push(item)),
    {
        proof {
            lemma_positions();
        }
        let i = resource_index(r);
        if !self.present[i] {
            self.slots.set(i, Vec::new());
            self.present.set(i, true);
        }
        let ghost mid = self.slots@;
        self.slots[i].push(item);
        proof {
            assert forall|x: ResourceType| x != r implies #[trigger] resource_pos(x) != resource_pos(r) by {}
            assert(self@ =~= old(self)@.insert(r, held(old(self)@, r).push(item)));
        }
    }

    /// Takes the most recently stored item of a kind. A kind that is absent
    /// stays absent; a kind whose list runs empty stays present.
    pub fn pop(&mut self, r: ResourceType) -> (o: Option<T>)
        requires
            old(self).wf(),
        ensures
            final(self).wf(),
            held(old(self)@, r).len() == 0 ==> o is None && final(self)@ == old(self)@,
            held(old(self)@, r).len() > 0 ==> {
                &&& o == Some(held(old(self)@, r).last())
                &&& final(self)@ == old(self)@.insert(r, held(old(self)@, r).drop_last())
            },
    {
        proof {
            lemma_positions();
        }
        let i = resource_index(r);
        if !self.present[i] {
            return None;
        }
        let o = self.slots[i].pop();
        proof {
            assert forall|x: ResourceType| x != r implies #[trigger] resource_pos(x) != resource_pos(r) by {}
            if o is Some {
                assert(self@ =~= old(self)@.insert(r, held(old(self)@, r).drop_last()));
            } else {
                assert(self@ =~= old(self)@);
            }
        }
        o
    }

    /// Number of items stored under a kind.
    pub fn count(&self, r: ResourceType) -> (n: usize)
        requires
            self.wf(),
        ensures
            n == held(self@, r).len(),
    {
        proof {
            lemma_positions();
        }
        let i = resource_index(r);
        if self.present[i] {
            self.slots[i].len()
        } else {
            0
        }
    }

    /// Takes one item of each of two kinds, `a` first. When either is
    /// missing nothing is taken.
    pub fn take_two(&mut self, a: ResourceType, b: ResourceType) -> (o: Option<(T, T)>)
        requires
            old(self).wf(),
        ensures
            final(self).wf(),
            o is None <==> !can_take_two(old(self)@, a, b),
            o is None ==> final(self)@ == old(self)@,
            o matches Some(p) ==> {
                &&& p.0 == held(old(self)@, a).last()
                &&& p.1 == held(after_take_one(old(self)@, a), b).last()
                &&& final(self)@ == after_take_one(after_take_one(old(self)@, a), b)
            },
    {
        let first = self.pop(a);
        match first {
            None => None,
            Some(x) => {
                let second = self.pop(b);
                match second {
                    None => {
                        self.push(a, x);
                        proof {
                            assert(held(old(self)@, a).drop_last().push(x) =~= held(old(self)@, a));
                            assert(self@ =~= old(self)@);
                        }
                        None
                    },
                    Some(y) => Some((x, y)),
                }
            },
        }
    }

    /// For each kind present in the bag, the number of items stored under it.
    pub fn counts(&self) -> (t: ResourceTable)
        requires
            self.wf(),
        ensures
            t.wf(),
            forall|r: ResourceType| #[trigger] t@.contains_key(r) <==> self@.contains_key(r),
            forall|r: ResourceType| #[trigger] t@.contains_key(r) ==> t@[r] == self@[r].len(),
    {
        let mut t = ResourceTable::new();
        let mut i: usize = 0;
        proof {
            lemma_positions();
        }
        while i < N_RESOURCES
            invariant
                self.wf(),
                t.wf(),
                i <= N_RESOURCES,
                forall|r: ResourceType| #[trigger] t@.contains_key(r) <==> (self@.contains_key(r) && resource_pos(r) < i),
                forall|r: ResourceType| #[trigger] t@.contains_key(r) ==> t@[r] == self@[r].len(),
            decreases N_RESOURCES - i,
        {
            proof {
                lemma_positions();
            }
            let r = resource_from_index(i);
            if self.present[i] {
                t.insert(r, self.slots[i].len());
            }
            i = i + 1;
        }
        t
    }

    /// For each kind with at least one item, the number of items stored
    /// under it.
    pub fn nonempty_counts(&self) -> (t: ResourceTable)
        requires
            self.wf(),
        ensures
            t.wf(),
            forall|r: ResourceType| #[trigger] t@.contains_key(r) <==> held(self@, r).len() > 0,
            forall|r: ResourceType| #[trigger] t@.contains_key(r) ==> t@[r] == held(self@, r).len(),
    {
        let mut t = ResourceTable::new();
        let mut i: usize = 0;
        proof {
            lemma_positions();
        }
        while i < N_RESOURCES
            invariant
                self.wf(),
                t.wf(),
                i <= N_RESOURCES,
                forall|r: ResourceType| #[trigger] t@.contains_key(r) <==> (held(self@, r).len() > 0 && resource_pos(r) < i),
                forall|r: ResourceType| #[trigger] t@.contains_key(r) ==> t@[r] == held(self@, r).len(),
            decreases N_RESOURCES - i,
        {
            proof {
                lemma_positions();
            }
            let r = resource_from_index(i);
            if self.present[i] && self.slots[i].len() > 0 {
                t.insert(r, self.slots[i].len());
            }
            i = i + 1;
        }
        t
    }
}

} // verus!
