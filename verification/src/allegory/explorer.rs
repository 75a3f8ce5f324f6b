//! The allegory explorer's state, its bag handling and the bookkeeping of
//! its task: what is still to collect, what is still to craft, and when the
//! task is done.

use vstd::prelude::*;
use crate::allegory::bag::Bag;
use crate::allegory::knowledge::{is_first_step, ExplorerKnowledge, StrategyState};
use crate::bag::{after_take_one, can_take_two, held};
use crate::graph::first_hop_towards;
use crate::protocol::{BagContent, ComplexResourceRequest};
use crate::resources::{
    basic_need, get_resource_recipe, lemma_positions, recipe, resource_at, resource_from_index, BasicResourceType,
    ComplexResourceType, ResourceType, N_RESOURCES,
};
use crate::table::{count_of, ResourceTable};

verus! {

/// Who drives the explorer, or whether it is out of the game.
#[derive(Clone, Copy, Debug, PartialEq, Eq, Structural)]
pub enum ExplorerMode {
    Auto,
    Manual,
    Stopped,
    Killed,
    Retired,
}

/// The allegory explorer. Its items are opaque values of type `T`.
pub struct AllegoryExplorer<T> {
    pub id: u32,
    pub current_planet_id: u32,
    pub mode: ExplorerMode,
    pub bag: Bag<T>,
    /// The bag content the task bookkeeping reads. It is set when the
    /// explorer is made and is not refreshed from the bag afterwards.
    pub bag_content: BagContent,
    pub knowledge: ExplorerKnowledge,
    /// The resources to hold at the end, per kind.
    pub task: ResourceTable,
    /// The basic resources the task needs once every complex resource in it
    /// is expanded down to basic ones.
    pub simple_resources_task: ResourceTable,
}

/// How many more of basic kind `b` the shopping list asks for (not positive
/// when nothing is missing).
pub open spec fn basic_gap(list: Map<ResourceType, usize>, content: Map<ResourceType, usize>, b: BasicResourceType) -> int {
    count_of(list, ResourceType::Basic(b)) - count_of(content, ResourceType::Basic(b))
}

/// How many more of complex kind `c` the task asks for.
pub open spec fn complex_gap(task: Map<ResourceType, usize>, content: Map<ResourceType, usize>, c: ComplexResourceType) -> int {
    count_of(task, ResourceType::Complex(c)) - count_of(content, ResourceType::Complex(c))
}

/// The entry of basic kind `b` on the shopping list, if it is missing.
pub open spec fn basic_gap_entry(list: Map<ResourceType, usize>, content: Map<ResourceType, usize>, b: BasicResourceType) -> Seq<(BasicResourceType, usize)> {
    if basic_gap(list, content, b) > 0 {
        seq![(b, basic_gap(list, content, b) as usize)]
    } else {
        Seq::empty()
    }
}

/// The entry of complex kind `c` on the crafting list, if it is missing.
pub open spec fn complex_gap_entry(task: Map<ResourceType, usize>, content: Map<ResourceType, usize>, c: ComplexResourceType) -> Seq<(ComplexResourceType, usize)> {
    if complex_gap(task, content, c) > 0 {
        seq![(c, complex_gap(task, content, c) as usize)]
    } else {
        Seq::empty()
    }
}

/// The basic resources still to collect, with how many of each, in the
/// declaration order of the kinds.
pub open spec fn shopping_list(list: Map<ResourceType, usize>, content: Map<ResourceType, usize>) -> Seq<(BasicResourceType, usize)> {
    basic_gap_entry(list, content, BasicResourceType::Oxygen)
        + basic_gap_entry(list, content, BasicResourceType::Hydrogen)
        + basic_gap_entry(list, content, BasicResourceType::Carbon)
        + basic_gap_entry(list, content, BasicResourceType::Silicon)
}

/// The complex resources still to craft, with how many of each, in the
/// declaration order of the kinds.
pub open spec fn crafting_list(task: Map<ResourceType, usize>, content: Map<ResourceType, usize>) -> Seq<(ComplexResourceType, usize)> {
    complex_gap_entry(task, content, ComplexResourceType::Diamond)
        + complex_gap_entry(task, content, ComplexResourceType::Water)
        + complex_gap_entry(task, content, ComplexResourceType::Life)
        + complex_gap_entry(task, content, ComplexResourceType::Robot)
        + complex_gap_entry(task, content, ComplexResourceType::Dolphin)
        + complex_gap_entry(task, content, ComplexResourceType::AIPartner)
}

/// The content holds at least as much of every kind as the task asks for.
pub open spec fn task_met(task: Map<ResourceType, usize>, content: Map<ResourceType, usize>) -> bool {
    forall|r: ResourceType| #[trigger] task.contains_key(r) ==> task[r] <= count_of(content, r)
}

/// How many units of basic kind `b` one unit of `r` stands for.
pub open spec fn basic_coef(r: ResourceType, b: BasicResourceType) -> nat {
    match r {
        ResourceType::Basic(x) => if x == b { 1 } else { 0 },
        ResourceType::Complex(c) => basic_need(c, b),
    }
}

/// The basic kind `b` the first `n` kinds of the task stand for.
pub open spec fn demand_upto(task: Map<ResourceType, usize>, b: BasicResourceType, n: int) -> nat
    decreases n,
{
    if n <= 0 {
        0
    } else {
        demand_upto(task, b, n - 1) + count_of(task, resource_at(n - 1)) * basic_coef(resource_at(n - 1), b)
    }
}

/// Some of the first `n` kinds of the task stands for basic kind `b`.
pub open spec fn demanded_upto(task: Map<ResourceType, usize>, b: BasicResourceType, n: int) -> bool
    decreases n,
{
    if n <= 0 {
        false
    } else {
        demanded_upto(task, b, n - 1) || (task.contains_key(resource_at(n - 1)) && basic_coef(resource_at(n - 1), b) > 0)
    }
}

/// The basic kind `b` the whole task stands for.
pub open spec fn basic_demand(task: Map<ResourceType, usize>, b: BasicResourceType) -> nat {
    demand_upto(task, b, N_RESOURCES as int)
}

/// Some kind of the task stands for basic kind `b`.
pub open spec fn demanded(task: Map<ResourceType, usize>, b: BasicResourceType) -> bool {
    demanded_upto(task, b, N_RESOURCES as int)
}

/// The basic-resource table of a task: one entry for each basic kind the
/// task stands for, with how many units of it the task stands for.
pub open spec fn is_simple_task(simple: Map<ResourceType, usize>, task: Map<ResourceType, usize>) -> bool {
    &&& forall|b: BasicResourceType| #[trigger] simple.contains_key(ResourceType::Basic(b)) <==> demanded(task, b)
    &&& forall|b: BasicResourceType| #[trigger] simple.contains_key(ResourceType::Basic(b)) ==> simple[ResourceType::Basic(b)] == basic_demand(task, b)
    &&& forall|c: ComplexResourceType| !(#[trigger] simple.contains_key(ResourceType::Complex(c)))
}

/// Sums of a task fit in a machine word.
pub open spec fn demand_fits(task: Map<ResourceType, usize>) -> bool {
    forall|b: BasicResourceType| #[trigger] basic_demand(task, b) <= usize::MAX
}

proof fn lemma_demand_mono(task: Map<ResourceType, usize>, b: BasicResourceType, n: int, m: int)
    requires
        n <= m,
    ensures
        demand_upto(task, b, n) <= demand_upto(task, b, m),
    decreases m - n,
{
    if n < m {
        lemma_demand_mono(task, b, n, m - 1);
    }
}

proof fn lemma_demand_bound(task: Map<ResourceType, usize>, b: BasicResourceType, n: int)
    requires
        0 <= n,
        forall|r: ResourceType| #[trigger] count_of(task, r) <= 2,
    ensures
        demand_upto(task, b, n) <= 6 * n,
    decreases n,
{
    if n > 0 {
        lemma_demand_bound(task, b, n - 1);
        let r = resource_at(n - 1);
        let k = count_of(task, r);
        let c = basic_coef(r, b);
        assert(c <= 3);
        assert(k * c <= 6) by (nonlinear_arith)
            requires
                k <= 2,
                c <= 3,
        ;
    }
}

/// How many units of basic kind `b` one unit of `r` stands for.
fn basic_coef_of(r: ResourceType, b: BasicResourceType) -> (n: usize)
    ensures
        n == basic_coef(r, b),
{
    match r {
        ResourceType::Basic(x) => if x == b { 1 } else { 0 },
        ResourceType::Complex(c) => match (c, b) {
            (ComplexResourceType::Water, BasicResourceType::Hydrogen) => 1,
            (ComplexResourceType::Water, BasicResourceType::Oxygen) => 1,
            (ComplexResourceType::Diamond, BasicResourceType::Carbon) => 2,
            (ComplexResourceType::Life, BasicResourceType::Hydrogen) => 1,
            (ComplexResourceType::Life, BasicResourceType::Oxygen) => 1,
            (ComplexResourceType::Life, BasicResourceType::Carbon) => 1,
            (ComplexResourceType::Robot, BasicResourceType::Silicon) => 1,
            (ComplexResourceType::Robot, BasicResourceType::Hydrogen) => 1,
            (ComplexResourceType::Robot, BasicResourceType::Oxygen) => 1,
            (ComplexResourceType::Robot, BasicResourceType::Carbon) => 1,
            (ComplexResourceType::Dolphin, BasicResourceType::Hydrogen) => 2,
            (ComplexResourceType::Dolphin, BasicResourceType::Oxygen) => 2,
            (ComplexResourceType::Dolphin, BasicResourceType::Carbon) => 1,
            (ComplexResourceType::AIPartner, BasicResourceType::Silicon) => 1,
            (ComplexResourceType::AIPartner, BasicResourceType::Carbon) => 3,
            (ComplexResourceType::AIPartner, BasicResourceType::Hydrogen) => 1,
            (ComplexResourceType::AIPartner, BasicResourceType::Oxygen) => 1,
            _ => 0,
        },
    }
}

impl<T> AllegoryExplorer<T> {
    /// The tables and the bag are well formed.
    pub open spec fn wf(&self) -> bool {
        &&& self.bag.items.wf()
        &&& self.bag_content.content.wf()
        &&& self.task.wf()
        &&& self.simple_resources_task.wf()
    }

    /// `self` and `other` agree on everything but the bag.
    pub open spec fn same_but_bag(&self, other: &Self) -> bool {
        &&& self.id == other.id
        &&& self.current_planet_id == other.current_planet_id
        &&& self.mode == other.mode
        &&& self.bag_content == other.bag_content
        &&& self.knowledge == other.knowledge
        &&& self.task == other.task
        &&& self.simple_resources_task == other.simple_resources_task
    }

    /// A stopped explorer with an empty bag, no knowledge and the given
    /// task; its basic-resource table is empty.
    pub fn new_complete(id: u32, current_planet_id: u32, task: ResourceTable) -> (e: Self)
        requires
            task.wf(),
        ensures
            e.wf(),
            e.id == id,
            e.current_planet_id == current_planet_id,
            e.mode == ExplorerMode::Stopped,
            e.bag.items@ == Map::<ResourceType, Seq<T>>::empty(),
            e.bag_content.content@ == Map::<ResourceType, usize>::empty(),
            e.knowledge.current_state == StrategyState::Exploring,
            e.knowledge.current_target_planet is None,
            e.knowledge.planets@.len() == 0,
            e.task == task,
            e.simple_resources_task@ == Map::<ResourceType, usize>::empty(),
    {
        AllegoryExplorer {
            id,
            current_planet_id,
            mode: ExplorerMode::Stopped,
            bag: Bag::default(),
            bag_content: BagContent { content: ResourceTable::new() },
            knowledge: ExplorerKnowledge::default(),
            task,
            simple_resources_task: ResourceTable::new(),
        }
    }

    /// A stopped explorer whose task is one dolphin, one water, two hydrogen
    /// and one oxygen, with the basic-resource table of that task.
    pub fn new(id: u32, current_planet: u32) -> (e: Self)
        ensures
            e.wf(),
            e.id == id,
            e.current_planet_id == current_planet,
            e.mode == ExplorerMode::Stopped,
            e.bag.items@ == Map::<ResourceType, Seq<T>>::empty(),
            e.bag_content.content@ == Map::<ResourceType, usize>::empty(),
            e.knowledge.current_state == StrategyState::Exploring,
            e.knowledge.current_target_planet is None,
            e.knowledge.planets@.len() == 0,
            e.task@ == map![
                ResourceType::Complex(ComplexResourceType::Dolphin) => 1usize,
                ResourceType::Complex(ComplexResourceType::Water) => 1usize,
                ResourceType::Basic(BasicResourceType::Hydrogen) => 2usize,
                ResourceType::Basic(BasicResourceType::Oxygen) => 1usize
            ],
            is_simple_task(e.simple_resources_task@, e.task@),
    {
        let mut task = ResourceTable::new();
        task.insert(ResourceType::Complex(ComplexResourceType::Dolphin), 1);
        task.insert(ResourceType::Complex(ComplexResourceType::Water), 1);
        task.insert(ResourceType::Basic(BasicResourceType::Hydrogen), 2);
        task.insert(ResourceType::Basic(BasicResourceType::Oxygen), 1);
        let mut e = AllegoryExplorer::new_complete(id, current_planet, task);
        proof {
            assert(e.task@ =~= map![
                ResourceType::Complex(ComplexResourceType::Dolphin) => 1usize,
                ResourceType::Complex(ComplexResourceType::Water) => 1usize,
                ResourceType::Basic(BasicResourceType::Hydrogen) => 2usize,
                ResourceType::Basic(BasicResourceType::Oxygen) => 1usize
            ]);
            assert forall|b: BasicResourceType| #[trigger] basic_demand(e.task@, b) <= usize::MAX by {
                lemma_demand_bound(e.task@, b, N_RESOURCES as int);
            }
        }
        e.complex_to_simple_list();
        e
    }

    /// Stores a basic resource of the given kind.
    pub fn add_basic_to_bag(&mut self, resource_type: BasicResourceType, resource: T)
        requires
            old(self).wf(),
        ensures
            final(self).wf(),
            final(self).same_but_bag(old(self)),
            final(self).bag.items@ == old(self).bag.items@.insert(
                ResourceType::Basic(resource_type),
                held(old(self).bag.items@, ResourceType::Basic(resource_type)).push(resource),
            ),
    {
        self.bag.items.push(ResourceType::Basic(resource_type), resource);
    }

    /// Stores a complex resource of the given kind.
    pub fn add_complex_to_bag(&mut self, resource_type: ComplexResourceType, resource: T)
        requires
            old(self).wf(),
        ensures
            final(self).wf(),
            final(self).same_but_bag(old(self)),
            final(self).bag.items@ == old(self).bag.items@.insert(
                ResourceType::Complex(resource_type),
                held(old(self).bag.items@, ResourceType::Complex(resource_type)).push(resource),
            ),
    {
        self.bag.items.push(ResourceType::Complex(resource_type), resource);
    }

    /// Moves the strategy to a new state.
    pub fn change_state(&mut self, new_state: StrategyState)
        ensures
            final(self).knowledge.current_state == new_state,
            final(self).knowledge.current_target_planet == old(self).knowledge.current_target_planet,
            final(self).knowledge.planets == old(self).knowledge.planets,
            final(self).id == old(self).id,
            final(self).current_planet_id == old(self).current_planet_id,
            final(self).mode == old(self).mode,
            final(self).bag == old(self).bag,
            final(self).bag_content == old(self).bag_content,
            final(self).task == old(self).task,
            final(self).simple_resources_task == old(self).simple_resources_task,
    {
        self.knowledge.update_state(new_state);
    }

    /// The first planet to travel to, on a shortest known path from the
    /// current planet, towards the nearest of `targets`.
    pub fn find_first_unexplored(&self, targets: &Vec<u32>) -> (r: Option<u32>)
        ensures
            is_first_step(self.knowledge.planets@, self.current_planet_id, targets@, r),
    {
        let map = self.knowledge.planet_map();
        first_hop_towards(&map, self.current_planet_id, targets)
    }

    /// The basic resources still to collect before crafting, per the bag
    /// content, or `None` when nothing is missing.
    pub fn anything_left_on_the_shopping_list(&self) -> (r: Option<Vec<(BasicResourceType, usize)>>)
        requires
            self.wf(),
        ensures
            match r {
                None => shopping_list(self.simple_resources_task@, self.bag_content.content@).len() == 0,
                Some(v) => v@ == shopping_list(self.simple_resources_task@, self.bag_content.content@) && v@.len() > 0,
            },
    {
        let mut missing: Vec<(BasicResourceType, usize)> = Vec::new();
        let ghost list = self.simple_resources_task@;
        let ghost content = self.bag_content.content@;
        self.push_basic_gap(&mut missing, BasicResourceType::Oxygen);
        self.push_basic_gap(&mut missing, BasicResourceType::Hydrogen);
        self.push_basic_gap(&mut missing, BasicResourceType::Carbon);
        self.push_basic_gap(&mut missing, BasicResourceType::Silicon);
        proof {
            assert(missing@ =~= shopping_list(list, content));
        }
        if missing.len() == 0 {
            None
        } else {
            Some(missing)
        }
    }

    fn push_basic_gap(&self, missing: &mut Vec<(BasicResourceType, usize)>, b: BasicResourceType)
        requires
            self.wf(),
        ensures
            final(missing)@ == old(missing)@ + basic_gap_entry(self.simple_resources_task@, self.bag_content.content@, b),
    {
        let needed = self.simple_resources_task.count(ResourceType::Basic(b));
        let have = self.bag_content.content.count(ResourceType::Basic(b));
        if needed > have {
            missing.push((b, needed - have));
            proof {
                assert(final(missing)@ =~= old(missing)@ + basic_gap_entry(self.simple_resources_task@, self.bag_content.content@, b));
            }
        } else {
            proof {
                assert(final(missing)@ =~= old(missing)@ + basic_gap_entry(self.simple_resources_task@, self.bag_content.content@, b));
            }
        }
    }

    fn push_complex_gap(&self, missing: &mut Vec<(ComplexResourceType, usize)>, c: ComplexResourceType)
        requires
            self.wf(),
        ensures
            final(missing)@ == old(missing)@ + complex_gap_entry(self.task@, self.bag_content.content@, c),
    {
        let needed = self.task.count(ResourceType::Complex(c));
        let have = self.bag_content.content.count(ResourceType::Complex(c));
        if needed > have {
            missing.push((c, needed - have));
            proof {
                assert(final(missing)@ =~= old(missing)@ + complex_gap_entry(self.task@, self.bag_content.content@, c));
            }
        } else {
            proof {
                assert(final(missing)@ =~= old(missing)@ + complex_gap_entry(self.task@, self.bag_content.content@, c));
            }
        }
    }

    /// The complex resources of the task still to craft, per the bag
    /// content, or `None` when nothing is missing.
    pub fn anything_left_on_the_crafting_list(&self) -> (r: Option<Vec<(ComplexResourceType, usize)>>)
        requires
            self.wf(),
        ensures
            match r {
                None => crafting_list(self.task@, self.bag_content.content@).len() == 0,
                Some(v) => v@ == crafting_list(self.task@, self.bag_content.content@) && v@.len() > 0,
            },
    {
        let mut missing: Vec<(ComplexResourceType, usize)> = Vec::new();
        let ghost task = self.task@;
        let ghost content = self.bag_content.content@;
        self.push_complex_gap(&mut missing, ComplexResourceType::Diamond);
        self.push_complex_gap(&mut missing, ComplexResourceType::Water);
        self.push_complex_gap(&mut missing, ComplexResourceType::Life);
        self.push_complex_gap(&mut missing, ComplexResourceType::Robot);
        self.push_complex_gap(&mut missing, ComplexResourceType::Dolphin);
        self.push_complex_gap(&mut missing, ComplexResourceType::AIPartner);
        proof {
            assert(missing@ =~= crafting_list(task, content));
        }
        if missing.len() == 0 {
            None
        } else {
            Some(missing)
        }
    }

    /// Whether the bag content holds everything the task asks for.
    pub fn verify_win(&self) -> (r: bool)
        requires
            self.wf(),
        ensures
            r == task_met(self.task@, self.bag_content.content@),
    {
        let mut i: usize = 0;
        proof {
            lemma_positions();
        }
        while i < N_RESOURCES
            invariant
                self.wf(),
                i <= N_RESOURCES,
                forall|r: ResourceType| #[trigger] self.task@.contains_key(r) && crate::resources::resource_pos(r) < i
                    ==> self.task@[r] <= count_of(self.bag_content.content@, r),
            decreases N_RESOURCES - i,
        {
            proof {
                lemma_positions();
            }
            let r = resource_from_index(i);
            match self.task.get(r) {
                Some(required) => {
                    let owned = self.bag_content.content.count(r);
                    if owned < required {
                        return false;
                    }
                },
                None => {},
            }
            i = i + 1;
        }
        true
    }

    /// Fills the basic-resource table with what the task stands for once
    /// every complex resource in it is expanded down to basic resources.
    pub fn complex_to_simple_list(&mut self)
        requires
            old(self).wf(),
            demand_fits(old(self).task@),
        ensures
            final(self).wf(),
            is_simple_task(final(self).simple_resources_task@, old(self).task@),
            final(self).id == old(self).id,
            final(self).current_planet_id == old(self).current_planet_id,
            final(self).mode == old(self).mode,
            final(self).bag == old(self).bag,
            final(self).bag_content == old(self).bag_content,
            final(self).knowledge == old(self).knowledge,
            final(self).task == old(self).task,
    {
        let mut map = ResourceTable::new();
        self.add_demand(&mut map, BasicResourceType::Oxygen);
        self.add_demand(&mut map, BasicResourceType::Hydrogen);
        self.add_demand(&mut map, BasicResourceType::Carbon);
        self.add_demand(&mut map, BasicResourceType::Silicon);
        proof {
            assert forall|b: BasicResourceType| #[trigger] map@.contains_key(ResourceType::Basic(b)) <==> demanded(self.task@, b) by {
                match b {
                    BasicResourceType::Oxygen => {},
                    BasicResourceType::Hydrogen => {},
                    BasicResourceType::Carbon => {},
                    BasicResourceType::Silicon => {},
                }
            }
            assert forall|b: BasicResourceType| #[trigger] map@.contains_key(ResourceType::Basic(b)) implies map@[ResourceType::Basic(b)] == basic_demand(self.task@, b) by {
                match b {
                    BasicResourceType::Oxygen => {},
                    BasicResourceType::Hydrogen => {},
                    BasicResourceType::Carbon => {},
                    BasicResourceType::Silicon => {},
                }
            }
        }
        self.simple_resources_task = map;
    }

    /// Adds the entry of basic kind `b` to a table under construction.
    fn add_demand(&self, map: &mut ResourceTable, b: BasicResourceType)
        requires
            self.wf(),
            old(map).wf(),
            !old(map)@.contains_key(ResourceType::Basic(b)),
            demand_fits(self.task@),
        ensures
            final(map).wf(),
            forall|r: ResourceType| r != ResourceType::Basic(b) ==> (#[trigger] final(map)@.contains_key(r) <==> old(map)@.contains_key(r)),
            forall|r: ResourceType| r != ResourceType::Basic(b) && old(map)@.contains_key(r) ==> #[trigger] final(map)@[r] == old(map)@[r],
            final(map)@.contains_key(ResourceType::Basic(b)) <==> demanded(self.task@, b),
            final(map)@.contains_key(ResourceType::Basic(b)) ==> final(map)@[ResourceType::Basic(b)] == basic_demand(self.task@, b),
    {
        let mut total: usize = 0;
        let mut seen = false;
        let mut i: usize = 0;
        proof {
            lemma_positions();
        }
        while i < N_RESOURCES
            invariant
                self.wf(),
                demand_fits(self.task@),
                i <= N_RESOURCES,
                total == demand_upto(self.task@, b, i as int),
                seen == demanded_upto(self.task@, b, i as int),
            decreases N_RESOURCES - i,
        {
            proof {
                lemma_positions();
                lemma_demand_mono(self.task@, b, i + 1, N_RESOURCES as int);
                assert(basic_demand(self.task@, b) <= usize::MAX);
            }
            let r = resource_from_index(i);
            let coef = basic_coef_of(r, b);
            match self.task.get(r) {
                Some(count) => {
                    total = total + count * coef;
                    if coef > 0 {
                        seen = true;
                    }
                },
                None => {},
            }
            i = i + 1;
        }
        if seen {
            map.insert(ResourceType::Basic(b), total);
        }
    }

    /// Takes from the bag the two ingredients of `resource`, in the order of
    /// its recipe. When the bag lacks either, nothing is taken and `None`
    /// is returned.
    pub fn create_complex_request(&mut self, resource: ComplexResourceType) -> (r: Option<ComplexResourceRequest<T>>)
        requires
            old(self).wf(),
        ensures
            final(self).wf(),
            final(self).same_but_bag(old(self)),
            ({
                let (a, b) = recipe(resource);
                let before = old(self).bag.items@;
                &&& r is None <==> !can_take_two(before, a, b)
                &&& r is None ==> final(self).bag.items@ == before
                &&& r matches Some(req) ==> {
                    &&& req.target == resource
                    &&& req.first == held(before, a).last()
                    &&& req.second == held(after_take_one(before, a), b).last()
                    &&& final(self).bag.items@ == after_take_one(after_take_one(before, a), b)
                }
            }),
    {
        let (a, b) = get_resource_recipe(&resource);
        match self.bag.items.take_two(a, b) {
            None => None,
            Some((first, second)) => Some(ComplexResourceRequest { target: resource, first, second }),
        }
    }
}

} // verus!
