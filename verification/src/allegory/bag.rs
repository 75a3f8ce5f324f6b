//! The allegory explorer's bag: the items it carries, per kind.

use vstd::prelude::*;
use crate::bag::{held, ResourceBag};
use crate::protocol::BagContent;
use crate::resources::{BasicResourceType, ComplexResourceType, ResourceType};

verus! {

/// The items an explorer carries.
pub struct Bag<T> {
    pub items: ResourceBag<T>,
}

impl<T> Default for Bag<T> {
    fn default() -> (b: Self)
        ensures
            b.items.wf(),
            b.items@ == Map::<ResourceType, Seq<T>>::empty(),
    {
        Bag { items: ResourceBag::new() }
    }
}

impl<T> Bag<T> {
    /// Takes the most recently stored basic resource of a kind, if any.
    pub fn get_basic_resource(&mut self, resource: BasicResourceType) -> (o: Option<T>)
        requires
            old(self).items.wf(),
        ensures
            final(self).items.wf(),
            ({
                let r = ResourceType::Basic(resource);
                &&& held(old(self).items@, r).len() == 0 ==> o is None && final(self).items@ == old(self).items@
                &&& held(old(self).items@, r).len() > 0 ==> {
                    &&& o == Some(held(old(self).items@, r).last())
                    &&& final(self).items@ == old(self).items@.insert(r, held(old(self).items@, r).drop_last())
                }
            }),
    {
        self.items.pop(ResourceType::Basic(resource))
    }

    /// Takes the most recently stored complex resource of a kind, if any.
    pub fn get_complex_resource(&mut self, resource: ComplexResourceType) -> (o: Option<T>)
        requires
            old(self).items.wf(),
        ensures
            final(self).items.wf(),
            ({
                let r = ResourceType::Complex(resource);
                &&& held(old(self).items@, r).len() == 0 ==> o is None && final(self).items@ == old(self).items@
                &&& held(old(self).items@, r).len() > 0 ==> {
                    &&& o == Some(held(old(self).items@, r).last())
                    &&& final(self).items@ == old(self).items@.insert(r, held(old(self).items@, r).drop_last())
                }
            }),
    {
        self.items.pop(ResourceType::Complex(resource))
    }
}

impl BagContent {
    /// The number of items of each kind the bag has held (kinds it never
    /// held are absent; kinds it ran out of count zero).
    pub fn from_bag<T>(bag: &Bag<T>) -> (c: Self)
        requires
            bag.items.wf(),
        ensures
            c.content.wf(),
            forall|r: ResourceType| #[trigger] c.content@.contains_key(r) <==> bag.items@.contains_key(r),
            forall|r: ResourceType| #[trigger] c.content@.contains_key(r) ==> c.content@[r] == bag.items@[r].len(),
    {
        BagContent { content: bag.items.counts() }
    }
}

} // verus!
