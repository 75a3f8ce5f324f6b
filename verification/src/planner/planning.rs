//! Planning: which final resource to make next (global), and the list of
//! generations and combinations that make it from what the bag holds
//! (local).

use vstd::prelude::*;
use crate::bag::held;
use crate::planner::explorer::ExplorerState;
use crate::planner::bag::Bag;
use crate::resources::{
    basic_index, basic_pos, complex_index, complex_pos, lemma_recipe_decreases, recipe, resource_depth,
    get_resource_recipe, BasicResourceType, ComplexResourceType, ResourceType,
};
use crate::table::{count_of, ResourceTable};

verus! {

/// The final resource to make next.
#[derive(Clone, Copy, Debug, PartialEq, Eq, Structural)]
pub struct GlobalTask {
    pub resource: ComplexResourceType,
}

impl GlobalTask {
    pub fn new(resource: ComplexResourceType) -> (t: Self)
        ensures
            t.resource == resource,
    {
        GlobalTask { resource }
    }
}

/// Chooses the final resource to make next.
pub struct GlobalPlanner;

/// How many items of kind `r` a bag holds.
pub open spec fn held_count<T>(bag: Bag<T>, r: ResourceType) -> nat {
    held(bag.res@, r).len()
}

impl GlobalPlanner {
    /// The final resource the bag holds fewest of, AI partners first among
    /// equals, so that the bag holds as many of each as possible.
    pub fn plan_next_task<T>(state: &ExplorerState<T>) -> (t: GlobalTask)
        requires
            state.wf(),
        ensures
            t.resource == if held_count(state.bag, ResourceType::Complex(ComplexResourceType::Dolphin))
                < held_count(state.bag, ResourceType::Complex(ComplexResourceType::AIPartner)) {
                ComplexResourceType::Dolphin
            } else {
                ComplexResourceType::AIPartner
            },
    {
        let partners = state.bag.res.count(ResourceType::Complex(ComplexResourceType::AIPartner));
        let dolphins = state.bag.res.count(ResourceType::Complex(ComplexResourceType::Dolphin));
        if dolphins < partners {
            GlobalTask::new(ComplexResourceType::Dolphin)
        } else {
            GlobalTask::new(ComplexResourceType::AIPartner)
        }
    }
}

/// One step of a plan: generate a basic resource or combine a complex one.
#[derive(Clone, Copy, Debug, PartialEq, Eq, Structural)]
pub enum LocalTask {
    Generate(BasicResourceType),
    Produce(ComplexResourceType),
}

/// A plan as a tree: a combination needs its two ingredients first; an
/// empty tree needs nothing.
pub enum TaskTree {
    Empty,
    Leaf(BasicResourceType),
    Node(ComplexResourceType, Box<TaskTree>, Box<TaskTree>),
}

/// The complete plan that makes `r` from nothing.
pub open spec fn full_tree(r: ResourceType) -> TaskTree
    decreases resource_depth(r),
{
    match r {
        ResourceType::Basic(b) => TaskTree::Leaf(b),
        ResourceType::Complex(c) => {
            proof {
                lemma_recipe_decreases(c);
            }
            TaskTree::Node(c, Box::new(full_tree(recipe(c).0)), Box::new(full_tree(recipe(c).1)))
        },
    }
}

/// The reserved count after one more item of kind `r` was reserved.
pub open spec fn reserve_one(reserved: Map<ResourceType, usize>, r: ResourceType) -> Map<ResourceType, usize> {
    reserved.insert(r, (count_of(reserved, r) + 1) as usize)
}

/// No kind is reserved more often than the bag holds it.
pub open spec fn within_bag<T>(reserved: Map<ResourceType, usize>, bag: Map<ResourceType, Seq<T>>) -> bool {
    forall|r: ResourceType| #[trigger] count_of(reserved, r) <= held(bag, r).len()
}

/// The plan `t` with every step the bag can already serve removed, and the
/// reservations made for them: a step whose result the bag holds more of
/// than is already reserved is dropped (together with what it needs) and
/// reserves one item; the root is never dropped. Subtrees are pruned left
/// to right.
pub open spec fn prune(t: TaskTree, counts: Map<ResourceType, nat>, reserved: Map<ResourceType, usize>, is_first: bool) -> (TaskTree, Map<ResourceType, usize>)
    decreases t,
{
    match t {
        TaskTree::Empty => (TaskTree::Empty, reserved),
        TaskTree::Leaf(b) => {
            let r = ResourceType::Basic(b);
            if counts[r] > count_of(reserved, r) && !is_first {
                (TaskTree::Empty, reserve_one(reserved, r))
            } else {
                (TaskTree::Leaf(b), reserved)
            }
        },
        TaskTree::Node(c, left, right) => {
            let r = ResourceType::Complex(c);
            if counts[r] > count_of(reserved, r) && !is_first {
                (TaskTree::Empty, reserve_one(reserved, r))
            } else {
                let (pl, res1) = prune(*left, counts, reserved, false);
                let (pr, res2) = prune(*right, counts, res1, false);
                (TaskTree::Node(c, Box::new(pl), Box::new(pr)), res2)
            }
        },
    }
}

/// The steps of tree `t` at depth `d`, left to right.
pub open spec fn level(t: TaskTree, d: int) -> Seq<LocalTask>
    decreases t,
{
    match t {
        TaskTree::Empty => Seq::empty(),
        TaskTree::Leaf(b) => if d == 0 { seq![LocalTask::Generate(b)] } else { Seq::empty() },
        TaskTree::Node(c, left, right) => if d == 0 {
            seq![LocalTask::Produce(c)]
        } else if d > 0 {
            level(*left, d - 1) + level(*right, d - 1)
        } else {
            Seq::empty()
        },
    }
}

/// The number of levels of a tree.
pub open spec fn height(t: TaskTree) -> nat
    decreases t,
{
    match t {
        TaskTree::Empty => 0,
        TaskTree::Leaf(_) => 1,
        TaskTree::Node(_, left, right) => {
            let hl = height(*left);
            let hr = height(*right);
            1 + if hl > hr { hl } else { hr }
        },
    }
}

/// The sort key of a step: the position of its resource among its kind.
pub open spec fn task_key(t: LocalTask) -> int {
    match t {
        LocalTask::Generate(b) => basic_pos(b),
        LocalTask::Produce(c) => complex_pos(c),
    }
}

/// The steps of `s` with key `k`, in order.
pub open spec fn with_key(s: Seq<LocalTask>, k: int) -> Seq<LocalTask>
    decreases s.len(),
{
    if s.len() == 0 {
        Seq::empty()
    } else {
        with_key(s.drop_last(), k) + if task_key(s.last()) == k { seq![s.last()] } else { Seq::empty() }
    }
}

/// The steps of `s` with a key below `k`, by key, keeping the order of
/// steps with equal keys.
pub open spec fn keyed_upto(s: Seq<LocalTask>, k: int) -> Seq<LocalTask>
    decreases k,
{
    if k <= 0 {
        Seq::empty()
    } else {
        keyed_upto(s, k - 1) + with_key(s, k - 1)
    }
}

/// `s` sorted by key, keeping the order of steps with equal keys (keys
/// range over the positions of the kinds, below six).
pub open spec fn sorted_by_key(s: Seq<LocalTask>) -> Seq<LocalTask> {
    keyed_upto(s, 6)
}

/// The levels of `t` below depth `n`, deepest first, each sorted by key.
pub open spec fn plan_levels(t: TaskTree, n: int) -> Seq<LocalTask>
    decreases n,
{
    if n <= 0 {
        Seq::empty()
    } else {
        sorted_by_key(level(t, n - 1)) + plan_levels(t, n - 1)
    }
}

/// The order in which the steps of a tree are carried out: deepest level
/// first, each level sorted by key.
pub open spec fn execution_order(t: TaskTree) -> Seq<LocalTask> {
    plan_levels(t, height(t) as int)
}

/// The plan for making `resource` with the items the bag holds.
pub open spec fn execution_plan(resource: ComplexResourceType, counts: Map<ResourceType, nat>) -> Seq<LocalTask> {
    execution_order(prune(full_tree(ResourceType::Complex(resource)), counts, Map::empty(), true).0)
}

proof fn lemma_height_bound(r: ResourceType)
    ensures
        height(full_tree(r)) <= resource_depth(r) + 1,
    decreases resource_depth(r),
{
    reveal_with_fuel(height, 2);
    match r {
        ResourceType::Basic(_) => {},
        ResourceType::Complex(c) => {
            lemma_recipe_decreases(c);
            lemma_height_bound(recipe(c).0);
            lemma_height_bound(recipe(c).1);
        },
    }
}

proof fn lemma_prune_height(t: TaskTree, counts: Map<ResourceType, nat>, reserved: Map<ResourceType, usize>, is_first: bool)
    ensures
        height(prune(t, counts, reserved, is_first).0) <= height(t),
    decreases t,
{
    match t {
        TaskTree::Node(c, left, right) => {
            let (pl, res1) = prune(*left, counts, reserved, false);
            lemma_prune_height(*left, counts, reserved, false);
            lemma_prune_height(*right, counts, res1, false);
        },
        _ => {},
    }
}

/// The steps of `s` with key `k`, in order.
fn keep_key(s: &Vec<LocalTask>, k: usize, out: &mut Vec<LocalTask>)
    ensures
        final(out)@ == old(out)@ + with_key(s@, k as int),
{
    let mut i: usize = 0;
    while i < s.len()
        invariant
            i <= s@.len(),
            out@ == old(out)@ + with_key(s@.subrange(0, i as int), k as int),
        decreases s@.len() - i,
    {
        let t = s[i];
        let key = match t {
            LocalTask::Generate(b) => basic_index(b),
            LocalTask::Produce(c) => complex_index(c),
        };
        proof {
            assert(s@.subrange(0, i + 1).drop_last() =~= s@.subrange(0, i as int));
            assert(s@.subrange(0, i + 1).last() == t);
        }
        if key == k {
            out.push(t);
        }
        i = i + 1;
        proof {
            assert(out@ =~= old(out)@ + with_key(s@.subrange(0, i as int), k as int));
        }
    }
    proof {
        assert(s@.subrange(0, i as int) =~= s@);
    }
}

/// Plans the making of final resources.
pub struct LocalPlanner;

impl LocalPlanner {
    /// The steps that make `task`'s resource with what the bag holds: the
    /// complete plan, minus what the bag can serve, deepest steps first and
    /// each level sorted by resource.
    pub fn get_execution_plan<T>(task: &GlobalTask, bag: &Bag<T>) -> (plan: Vec<LocalTask>)
        requires
            bag.res.wf(),
        ensures
            plan@ == execution_plan(task.resource, Map::new(|r: ResourceType| true, |r: ResourceType| held(bag.res@, r).len())),
    {
        let ghost counts = Map::new(|r: ResourceType| true, |r: ResourceType| held(bag.res@, r).len());
        let complete_plan = Self::get_tree_plan_for_task(&LocalTask::Produce(task.resource));
        let mut reserved = ResourceTable::new();
        let ghost empty = reserved@;
        let pruned_plan = Self::prune_plan(&complete_plan, bag, &mut reserved, true);
        proof {
            lemma_height_bound(ResourceType::Complex(task.resource));
            lemma_prune_height(complete_plan, counts, empty, true);
        }
        Self::sorted_topsort(&pruned_plan)
    }

    /// The complete plan for a step.
    pub fn get_tree_plan_for_task(task: &LocalTask) -> (t: TaskTree)
        ensures
            t == match *task {
                LocalTask::Generate(b) => full_tree(ResourceType::Basic(b)),
                LocalTask::Produce(c) => full_tree(ResourceType::Complex(c)),
            },
    {
        match task {
            LocalTask::Generate(b) => Self::get_tree_plan_for_resource(ResourceType::Basic(*b)),
            LocalTask::Produce(c) => Self::get_tree_plan_for_resource(ResourceType::Complex(*c)),
        }
    }

    /// The complete plan that makes a resource from nothing.
    pub fn get_tree_plan_for_resource(res_type: ResourceType) -> (t: TaskTree)
        ensures
            t == full_tree(res_type),
        decreases resource_depth(res_type),
    {
        match res_type {
            ResourceType::Basic(b) => TaskTree::Leaf(b),
            ResourceType::Complex(c) => {
                proof {
                    lemma_recipe_decreases(c);
                }
                let (a, b) = get_resource_recipe(&c);
                let plan_a = Self::get_tree_plan_for_resource(a);
                let plan_b = Self::get_tree_plan_for_resource(b);
                TaskTree::Node(c, Box::new(plan_a), Box::new(plan_b))
            },
        }
    }

    /// Removes from a plan the steps the bag can serve; see `prune`.
    pub fn prune_plan<T>(tree: &TaskTree, bag: &Bag<T>, reserved: &mut ResourceTable, is_first: bool) -> (t: TaskTree)
        requires
            bag.res.wf(),
            old(reserved).wf(),
            within_bag(old(reserved)@, bag.res@),
        ensures
            final(reserved).wf(),
            within_bag(final(reserved)@, bag.res@),
            (t, final(reserved)@) == prune(*tree, Map::new(|r: ResourceType| true, |r: ResourceType| held(bag.res@, r).len()), old(reserved)@, is_first),
        decreases tree,
    {
        let ghost counts = Map::new(|r: ResourceType| true, |r: ResourceType| held(bag.res@, r).len());
        match tree {
            TaskTree::Empty => {
                TaskTree::Empty
            },
            TaskTree::Leaf(b) => {
                let r = ResourceType::Basic(*b);
                let available = bag.res.count(r);
                let reserved_count = reserved.count(r);
                if available > reserved_count && !is_first {
                    reserved.insert(r, reserved_count + 1);
                    proof {
                        assert(reserved@ == reserve_one(old(reserved)@, r));
                        assert forall|x: ResourceType| #[trigger] count_of(reserved@, x) <= held(bag.res@, x).len() by {
                            assert(count_of(old(reserved)@, x) <= held(bag.res@, x).len());
                        }
                    }
                    TaskTree::Empty
                } else {
                    TaskTree::Leaf(*b)
                }
            },
            TaskTree::Node(c, left, right) => {
                let r = ResourceType::Complex(*c);
                let available = bag.res.count(r);
                let reserved_count = reserved.count(r);
                if available > reserved_count && !is_first {
                    reserved.insert(r, reserved_count + 1);
                    proof {
                        assert(reserved@ == reserve_one(old(reserved)@, r));
                        assert forall|x: ResourceType| #[trigger] count_of(reserved@, x) <= held(bag.res@, x).len() by {
                            assert(count_of(old(reserved)@, x) <= held(bag.res@, x).len());
                        }
                    }
                    TaskTree::Empty
                } else {
                    let pl = Self::prune_plan(left, bag, reserved, false);
                    let pr = Self::prune_plan(right, bag, reserved, false);
                    TaskTree::Node(*c, Box::new(pl), Box::new(pr))
                }
            },
        }
    }

    /// The steps of tree `t` at depth `d`, left to right.
    fn level_tasks(t: &TaskTree, d: usize, out: &mut Vec<LocalTask>)
        ensures
            final(out)@ == old(out)@ + level(*t, d as int),
        decreases t,
    {
        match t {
            TaskTree::Empty => {
                proof {
                    assert(final(out)@ =~= old(out)@ + level(*t, d as int));
                }
            },
            TaskTree::Leaf(b) => {
                if d == 0 {
                    out.push(LocalTask::Generate(*b));
                }
                proof {
                    assert(final(out)@ =~= old(out)@ + level(*t, d as int));
                }
            },
            TaskTree::Node(c, left, right) => {
                if d == 0 {
                    out.push(LocalTask::Produce(*c));
                    proof {
                        assert(final(out)@ =~= old(out)@ + level(*t, d as int));
                    }
                } else {
                    Self::level_tasks(left, d - 1, out);
                    Self::level_tasks(right, d - 1, out);
                    proof {
                        assert(final(out)@ =~= old(out)@ + level(*t, d as int));
                    }
                }
            },
        }
    }

    fn tree_height(t: &TaskTree) -> (h: usize)
        requires
            height(*t) <= 16,
        ensures
            h == height(*t),
        decreases t,
    {
        match t {
            TaskTree::Empty => 0,
            TaskTree::Leaf(_) => 1,
            TaskTree::Node(_, left, right) => {
                let hl = Self::tree_height(left);
                let hr = Self::tree_height(right);
                1 + if hl > hr { hl } else { hr }
            },
        }
    }

    /// The steps of a tree in execution order: deepest level first, each
    /// level sorted by resource.
    pub fn sorted_topsort(tree: &TaskTree) -> (plan: Vec<LocalTask>)
        requires
            height(*tree) <= 16,
        ensures
            plan@ == execution_order(*tree),
    {
        let h = Self::tree_height(tree);
        let mut plan: Vec<LocalTask> = Vec::new();
        let mut n: usize = h;
        while n > 0
            invariant
                n <= h,
                h == height(*tree),
                plan@ + plan_levels(*tree, n as int) == execution_order(*tree),
            decreases n,
        {
            let mut lv: Vec<LocalTask> = Vec::new();
            Self::level_tasks(tree, n - 1, &mut lv);
            let mut k: usize = 0;
            let ghost before = plan@;
            while k < 6
                invariant
                    k <= 6,
                    plan@ == before + keyed_upto(lv@, k as int),
                decreases 6 - k,
            {
                keep_key(&lv, k, &mut plan);
                k = k + 1;
                proof {
                    assert(plan@ =~= before + keyed_upto(lv@, k as int));
                }
            }
            proof {
                assert(plan@ =~= before + sorted_by_key(level(*tree, n - 1)));
                assert(plan_levels(*tree, n as int) == sorted_by_key(level(*tree, n - 1)) + plan_levels(*tree, n - 1));
                assert(plan@ + plan_levels(*tree, n - 1) =~= before + plan_levels(*tree, n as int));
            }
            n = n - 1;
        }
        proof {
            assert(plan@ + plan_levels(*tree, 0) =~= plan@);
        }
        plan
    }
}

} // verus!
