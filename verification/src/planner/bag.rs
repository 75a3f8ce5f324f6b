//! The planning explorers' bag: items per resource kind.

use vstd::prelude::*;
use crate::bag::{after_take_one, can_take_two, held, ResourceBag};
use crate::protocol::BagContent;
use crate::resources::{get_resource_recipe, recipe, BasicResourceType, ComplexResourceType, ResourceType};

verus! {

/// The items a planning explorer carries, per kind.
pub struct Bag<T> {
    pub res: ResourceBag<T>,
}

impl<T> Bag<T> {
    /// An empty bag.
    pub fn new() -> (b: Self)
        ensures
            b.res.wf(),
            b.res@ == Map::<ResourceType, Seq<T>>::empty(),
    {
        Bag { res: ResourceBag::new() }
    }

    /// Stores a basic resource of the given kind.
    pub fn insert_basic(&mut self, kind: BasicResourceType, resource: T)
        requires
            old(self).res.wf(),
        ensures
            final(self).res.wf(),
            final(self).res@ == old(self).res@.insert(
                ResourceType::Basic(kind),
                held(old(self).res@, ResourceType::Basic(kind)).push(resource),
            ),
    {
        self.res.push(ResourceType::Basic(kind), resource);
    }

    /// Stores a complex resource of the given kind.
    pub fn insert_complex(&mut self, kind: ComplexResourceType, resource: T)
        requires
            old(self).res.wf(),
        ensures
            final(self).res.wf(),
            final(self).res@ == old(self).res@.insert(
                ResourceType::Complex(kind),
                held(old(self).res@, ResourceType::Complex(kind)).push(resource),
            ),
    {
        self.res.push(ResourceType::Complex(kind), resource);
    }

    /// Takes the two ingredients of `resource_type`, in the order of its
    /// recipe; when either is missing nothing is taken.
    pub fn get_recipe_ingredients(&mut self, resource_type: ComplexResourceType) -> (r: Option<(T, T)>)
        requires
            old(self).res.wf(),
        ensures
            final(self).res.wf(),
            ({
                let (a, b) = recipe(resource_type);
                &&& r is None <==> !can_take_two(old(self).res@, a, b)
                &&& r is None ==> final(self).res@ == old(self).res@
                &&& r matches Some(p) ==> {
                    &&& p.0 == held(old(self).res@, a).last()
                    &&& p.1 == held(after_take_one(old(self).res@, a), b).last()
                    &&& final(self).res@ == after_take_one(after_take_one(old(self).res@, a), b)
                }
            }),
    {
        let (a, b) = get_resource_recipe(&resource_type);
        self.res.take_two(a, b)
    }

    /// How many items of each kind the bag holds, for the kinds it holds.
    pub fn to_bag_content(&self) -> (c: BagContent)
        requires
            self.res.wf(),
        ensures
            c.content.wf(),
            forall|r: ResourceType| #[trigger] c.content@.contains_key(r) <==> held(self.res@, r).len() > 0,
            forall|r: ResourceType| #[trigger] c.content@.contains_key(r) ==> c.content@[r] == held(self.res@, r).len(),
    {
        BagContent { content: self.res.nonempty_counts() }
    }
}

} // verus!
