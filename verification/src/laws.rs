//! Properties of the library that span several operations, stated over the
//! models the operations' contracts use.

use vstd::prelude::*;
use crate::allegory::explorer::{crafting_list, shopping_list, task_met};
use crate::bag::{after_take_one, held, pushed};
use crate::cetto::explorer::CettoExplorer;
use crate::cetto::turn::{exploit_post, first_wanted, wanted, ExploitCursor, ExploitStep};
use crate::planet::{after_rocket_attempt, charged_first_empty, first_cell, is_first_cell, lemma_some_first_cell};
use crate::planner::galaxy::{count_changed, PlanetKnowledge};
use crate::planner::planning::{execution_plan, full_tree, reserve_one, height, keyed_upto, level, plan_levels, prune, sorted_by_key, task_key, with_key, LocalTask, TaskTree};
use crate::resources::{BasicResourceType, ComplexResourceType, ResourceType};
use crate::table::count_of;

verus! {

/// Taking the most recent item of a kind right after storing `x` under it
/// gives `x` back, and leaves the kind holding what it held before.
pub proof fn law_pop_undoes_push<T>(m: Map<ResourceType, Seq<T>>, r: ResourceType, x: T)
    ensures
        held(pushed(m, r, x), r).len() > 0,
        held(pushed(m, r, x), r).last() == x,
        after_take_one(pushed(m, r, x), r) == m.insert(r, held(m, r)),
{
    assert(held(pushed(m, r, x), r).drop_last() =~= held(m, r));
}

/// Storing an item adds one to the count of its kind and leaves every other
/// kind as it was.
pub proof fn law_push_counts_one<T>(m: Map<ResourceType, Seq<T>>, r: ResourceType, x: T, other: ResourceType)
    requires
        other != r,
    ensures
        held(pushed(m, r, x), r).len() == held(m, r).len() + 1,
        held(pushed(m, r, x), other) == held(m, other),
{
}

/// Every connection of the set goes both ways.
pub open spec fn symmetric(e: Set<(u32, u32)>) -> bool {
    forall|a: u32, b: u32| #[trigger] e.contains((a, b)) ==> e.contains((b, a))
}

/// Connecting two planets both ways, or disconnecting them both ways (what
/// `add_bi_connection` and `remove_bi_connection` do to the connections),
/// keeps every connection going both ways.
pub proof fn law_connections_stay_symmetric(e: Set<(u32, u32)>, a: u32, b: u32)
    requires
        symmetric(e),
    ensures
        symmetric(e.insert((a, b)).insert((b, a))),
        symmetric(e.remove((a, b)).remove((b, a))),
{
    let added = e.insert((a, b)).insert((b, a));
    assert forall|x: u32, y: u32| #[trigger] added.contains((x, y)) implies added.contains((y, x)) by {
        if e.contains((x, y)) {
            assert(e.contains((y, x)));
        }
    }
    let removed = e.remove((a, b)).remove((b, a));
    assert forall|x: u32, y: u32| #[trigger] removed.contains((x, y)) implies removed.contains((y, x)) by {
        assert(e.contains((y, x)));
    }
}

/// Disconnecting two planets right after connecting them leaves the
/// connections as they were, when they were not connected before.
pub proof fn law_disconnect_undoes_connect(e: Set<(u32, u32)>, a: u32, b: u32)
    requires
        !e.contains((a, b)),
        !e.contains((b, a)),
    ensures
        e.insert((a, b)).insert((b, a)).remove((a, b)).remove((b, a)) == e,
{
    assert(e.insert((a, b)).insert((b, a)).remove((a, b)).remove((b, a)) =~= e);
}

/// Comparing a picture of the galaxy with itself shows no sunray and no
/// asteroid.
pub proof fn law_unchanged_galaxy_shows_nothing(ids: Seq<u32>, a: Map<u32, PlanetKnowledge>, up: bool, n: int)
    ensures
        count_changed(ids, a, a, up, n) == 0,
    decreases n,
{
    if n > 0 {
        law_unchanged_galaxy_shows_nothing(ids, a, up, n - 1);
    }
}

/// No planet counts both as having received a sunray and an asteroid: the
/// two estimates together are at most the number of planets compared.
pub proof fn law_estimates_within_planets(ids: Seq<u32>, a: Map<u32, PlanetKnowledge>, b: Map<u32, PlanetKnowledge>, n: int)
    requires
        0 <= n,
    ensures
        count_changed(ids, a, b, true, n) + count_changed(ids, a, b, false, n) <= n,
    decreases n,
{
    if n > 0 {
        law_estimates_within_planets(ids, a, b, n - 1);
    }
}

/// When the bag holds everything the task asks for, nothing is left to
/// craft; and when it holds every basic resource the task stands for,
/// nothing is left to collect.
pub proof fn law_met_task_leaves_nothing(task: Map<ResourceType, usize>, simple: Map<ResourceType, usize>, content: Map<ResourceType, usize>)
    ensures
        task_met(task, content) ==> crafting_list(task, content).len() == 0,
        task_met(simple, content) ==> shopping_list(simple, content).len() == 0,
{
    if task_met(task, content) {
        assert forall|c: ComplexResourceType| count_of(task, ResourceType::Complex(c)) <= count_of(content, ResourceType::Complex(c)) by {
            if task.contains_key(ResourceType::Complex(c)) {
                assert(task[ResourceType::Complex(c)] <= count_of(content, ResourceType::Complex(c)));
            }
        }
        assert(crafting_list(task, content) =~= Seq::empty()) by {
            assert(count_of(task, ResourceType::Complex(ComplexResourceType::Diamond)) <= count_of(content, ResourceType::Complex(ComplexResourceType::Diamond)));
            assert(count_of(task, ResourceType::Complex(ComplexResourceType::Water)) <= count_of(content, ResourceType::Complex(ComplexResourceType::Water)));
            assert(count_of(task, ResourceType::Complex(ComplexResourceType::Life)) <= count_of(content, ResourceType::Complex(ComplexResourceType::Life)));
            assert(count_of(task, ResourceType::Complex(ComplexResourceType::Robot)) <= count_of(content, ResourceType::Complex(ComplexResourceType::Robot)));
            assert(count_of(task, ResourceType::Complex(ComplexResourceType::Dolphin)) <= count_of(content, ResourceType::Complex(ComplexResourceType::Dolphin)));
            assert(count_of(task, ResourceType::Complex(ComplexResourceType::AIPartner)) <= count_of(content, ResourceType::Complex(ComplexResourceType::AIPartner)));
        }
    }
    if task_met(simple, content) {
        assert forall|b: BasicResourceType| count_of(simple, ResourceType::Basic(b)) <= count_of(content, ResourceType::Basic(b)) by {
            if simple.contains_key(ResourceType::Basic(b)) {
                assert(simple[ResourceType::Basic(b)] <= count_of(content, ResourceType::Basic(b)));
            }
        }
        assert(shopping_list(simple, content) =~= Seq::empty()) by {
            assert(count_of(simple, ResourceType::Basic(BasicResourceType::Oxygen)) <= count_of(content, ResourceType::Basic(BasicResourceType::Oxygen)));
            assert(count_of(simple, ResourceType::Basic(BasicResourceType::Hydrogen)) <= count_of(content, ResourceType::Basic(BasicResourceType::Hydrogen)));
            assert(count_of(simple, ResourceType::Basic(BasicResourceType::Carbon)) <= count_of(content, ResourceType::Basic(BasicResourceType::Carbon)));
            assert(count_of(simple, ResourceType::Basic(BasicResourceType::Silicon)) <= count_of(content, ResourceType::Basic(BasicResourceType::Silicon)));
        }
    }
}

/// A planet that may hold a rocket, holds none and has an energy cell has
/// a rocket after a sunray, so it survives the asteroid that follows.
pub proof fn law_sunray_then_asteroid_survives(cells: Seq<bool>)
    requires
        cells.len() > 0,
    ensures
        after_rocket_attempt(charged_first_empty(cells), false, true).1,
{
    let charged = charged_first_empty(cells);
    match first_cell(cells, false) {
        Some(i) => {
            let i = choose|i: int| #[trigger] is_first_cell(cells, false, i);
            assert(charged[i]);
            lemma_some_first_cell(charged, true, i);
        },
        None => {
            if !cells[0] {
                lemma_some_first_cell(cells, false, 0);
            }
            lemma_some_first_cell(charged, true, 0);
        },
    }
}

/// A single step stays as it is when sorted by key.
proof fn lemma_sorted_single(x: LocalTask)
    requires
        0 <= task_key(x) < 6,
    ensures
        sorted_by_key(seq![x]) == seq![x],
{
    let s = seq![x];
    assert(s.drop_last() =~= Seq::<LocalTask>::empty());
    assert forall|k: int| #[trigger] with_key(s, k) == if task_key(x) == k { s } else { Seq::<LocalTask>::empty() } by {
        reveal_with_fuel(with_key, 2);
        assert(Seq::<LocalTask>::empty() + s =~= s);
        assert(Seq::<LocalTask>::empty() + Seq::<LocalTask>::empty() =~= Seq::<LocalTask>::empty());
    }
    reveal_with_fuel(keyed_upto, 7);
    assert(keyed_upto(s, 0) =~= Seq::<LocalTask>::empty());
    assert(with_key(s, 0) == if task_key(x) == 0 { s } else { Seq::<LocalTask>::empty() });
    assert(with_key(s, 1) == if task_key(x) == 1 { s } else { Seq::<LocalTask>::empty() });
    assert(with_key(s, 2) == if task_key(x) == 2 { s } else { Seq::<LocalTask>::empty() });
    assert(with_key(s, 3) == if task_key(x) == 3 { s } else { Seq::<LocalTask>::empty() });
    assert(with_key(s, 4) == if task_key(x) == 4 { s } else { Seq::<LocalTask>::empty() });
    assert(with_key(s, 5) == if task_key(x) == 5 { s } else { Seq::<LocalTask>::empty() });
    assert(keyed_upto(s, 6) =~= s);
}

proof fn lemma_levels_end_with_root(t: TaskTree, c: ComplexResourceType, n: int)
    requires
        t matches TaskTree::Node(r, _, _) && r == c,
        n >= 1,
    ensures
        plan_levels(t, n).len() > 0,
        plan_levels(t, n).last() == LocalTask::Produce(c),
    decreases n,
{
    if n == 1 {
        assert(level(t, 0) == seq![LocalTask::Produce(c)]);
        lemma_sorted_single(LocalTask::Produce(c));
        assert(plan_levels(t, 0) =~= Seq::<LocalTask>::empty());
        assert(plan_levels(t, 1) =~= seq![LocalTask::Produce(c)]);
    } else {
        lemma_levels_end_with_root(t, c, n - 1);
        let a = sorted_by_key(level(t, n - 1));
        let b = plan_levels(t, n - 1);
        assert(plan_levels(t, n) == a + b);
        assert((a + b).last() == b.last());
    }
}

/// The plan for making a final resource ends with making it, whatever the
/// bag holds.
pub proof fn law_plan_ends_with_goal(resource: ComplexResourceType, counts: Map<ResourceType, nat>)
    ensures
        execution_plan(resource, counts).len() > 0,
        execution_plan(resource, counts).last() == LocalTask::Produce(resource),
{
    let t = prune(full_tree(ResourceType::Complex(resource)), counts, Map::empty(), true).0;
    assert(t matches TaskTree::Node(r, _, _) && r == resource);
    assert(height(t) >= 1);
    lemma_levels_end_with_root(t, resource, height(t) as int);
}

/// The planets known to both pictures whose charged cells went up (when
/// `up`) or down from picture `a` to picture `b`.
pub open spec fn changed_planet(a: Map<u32, PlanetKnowledge>, b: Map<u32, PlanetKnowledge>, up: bool) -> spec_fn(u32) -> bool {
    |id: u32| b.contains_key(id) && if up {
        b[id].n_charged_cells > a[id].n_charged_cells
    } else {
        b[id].n_charged_cells < a[id].n_charged_cells
    }
}

/// The sunray (asteroid) estimate between two pictures is the number of
/// listed planets known to both whose charged cells went up (down), from
/// whatever count they had, zero included.
pub proof fn law_estimate_counts_changed_planets(
    ids: Seq<u32>,
    a: Map<u32, PlanetKnowledge>,
    b: Map<u32, PlanetKnowledge>,
    up: bool,
    n: int,
)
    requires
        0 <= n <= ids.len(),
    ensures
        count_changed(ids, a, b, up, n) == ids.subrange(0, n).filter(changed_planet(a, b, up)).len(),
    decreases n,
{
    reveal(Seq::filter);
    if n == 0 {
        assert(ids.subrange(0, 0).len() == 0);
    } else {
        law_estimate_counts_changed_planets(ids, a, b, up, n - 1);
        let s = ids.subrange(0, n);
        assert(s.drop_last() =~= ids.subrange(0, n - 1));
        assert(s.last() == ids[n - 1]);
    }
}

/// How many items of kind `r` the plan `p` takes from the bag instead of
/// making them, compared with the complete plan `t`: each step of `t` that
/// is missing from `p` is served by one item of its kind.
pub open spec fn served_count(t: TaskTree, p: TaskTree, r: ResourceType) -> nat
    decreases t,
{
    match t {
        TaskTree::Empty => 0,
        TaskTree::Leaf(b) => match p {
            TaskTree::Empty => if r == ResourceType::Basic(b) { 1nat } else { 0nat },
            _ => 0,
        },
        TaskTree::Node(c, left, right) => match p {
            TaskTree::Empty => if r == ResourceType::Complex(c) { 1nat } else { 0nat },
            TaskTree::Node(_, pl, pr) => served_count(*left, *pl, r) + served_count(*right, *pr, r),
            _ => 0,
        },
    }
}

proof fn lemma_prune_serves(t: TaskTree, counts: Map<ResourceType, nat>, reserved: Map<ResourceType, usize>, is_first: bool)
    requires
        forall|x: ResourceType| #[trigger] count_of(reserved, x) <= counts[x],
        forall|x: ResourceType| #[trigger] counts[x] <= usize::MAX,
    ensures
        forall|x: ResourceType| #[trigger] count_of(prune(t, counts, reserved, is_first).1, x)
            == count_of(reserved, x) + served_count(t, prune(t, counts, reserved, is_first).0, x),
        forall|x: ResourceType| #[trigger] count_of(prune(t, counts, reserved, is_first).1, x) <= counts[x],
    decreases t,
{
    match t {
        TaskTree::Empty => {},
        TaskTree::Leaf(b) => {
            let r = ResourceType::Basic(b);
            if counts[r] > count_of(reserved, r) && !is_first {
                let res2 = reserve_one(reserved, r);
                assert forall|x: ResourceType| #[trigger] count_of(res2, x) == count_of(reserved, x) + served_count(t, TaskTree::Empty, x)
                    && count_of(res2, x) <= counts[x] by {
                    assert(count_of(reserved, x) <= counts[x]);
                    assert(counts[x] <= usize::MAX);
                }
            }
        },
        TaskTree::Node(c, left, right) => {
            let r = ResourceType::Complex(c);
            if counts[r] > count_of(reserved, r) && !is_first {
                let res2 = reserve_one(reserved, r);
                assert forall|x: ResourceType| #[trigger] count_of(res2, x) == count_of(reserved, x) + served_count(t, TaskTree::Empty, x)
                    && count_of(res2, x) <= counts[x] by {
                    assert(count_of(reserved, x) <= counts[x]);
                    assert(counts[x] <= usize::MAX);
                }
            } else {
                let (pl, res1) = prune(*left, counts, reserved, false);
                lemma_prune_serves(*left, counts, reserved, false);
                let (pr, res2) = prune(*right, counts, res1, false);
                lemma_prune_serves(*right, counts, res1, false);
                let p = TaskTree::Node(c, Box::new(pl), Box::new(pr));
                assert(prune(t, counts, reserved, is_first) == (p, res2));
                assert forall|x: ResourceType| #[trigger] count_of(res2, x) == count_of(reserved, x) + served_count(t, p, x) by {
                    assert(count_of(res1, x) == count_of(reserved, x) + served_count(*left, pl, x));
                    assert(count_of(res2, x) == count_of(res1, x) + served_count(*right, pr, x));
                }
            }
        },
    }
}

/// The plan for a final resource never takes more items of a kind from the
/// bag than the bag holds: each ingredient it does not make is served by an
/// item of its own (so a diamond with one carbon held still generates the
/// second carbon).
pub proof fn law_plan_serves_within_bag(resource: ComplexResourceType, counts: Map<ResourceType, nat>, r: ResourceType)
    requires
        forall|x: ResourceType| #[trigger] counts[x] <= usize::MAX,
    ensures
        served_count(
            full_tree(ResourceType::Complex(resource)),
            prune(full_tree(ResourceType::Complex(resource)), counts, Map::empty(), true).0,
            r,
        ) <= counts[r],
{
    let t = full_tree(ResourceType::Complex(resource));
    let empty = Map::<ResourceType, usize>::empty();
    assert forall|x: ResourceType| #[trigger] count_of(empty, x) <= counts[x] by {}
    lemma_prune_serves(t, counts, empty, true);
    assert(count_of(prune(t, counts, empty, true).1, r) <= counts[r]);
    assert(count_of(prune(t, counts, empty, true).1, r) == count_of(empty, r) + served_count(t, prune(t, counts, empty, true).0, r));
}

/// A wanted basic kind at or after `from` makes some entry the first wanted
/// one, no later than it.
proof fn lemma_some_first_wanted<T>(e: CettoExplorer<T>, list: Seq<BasicResourceType>, from: int, cells: u32, k: int)
    requires
        from <= k < list.len(),
        wanted(e, list[k], cells),
    ensures
        exists|j: int| from <= j <= k && #[trigger] first_wanted(e, list, from, cells, j),
    decreases k - from,
{
    if forall|i: int| from <= i < k ==> !wanted(e, #[trigger] list[i], cells) {
        assert(first_wanted(e, list, from, cells, k));
    } else {
        let i = choose|i: int| from <= i < k && wanted(e, #[trigger] list[i], cells);
        lemma_some_first_wanted(e, list, from, cells, i);
    }
}

/// Two first-wanted entries from the same place are the same entry.
proof fn lemma_first_wanted_unique<T>(e: CettoExplorer<T>, list: Seq<BasicResourceType>, from: int, cells: u32, i: int, j: int)
    requires
        first_wanted(e, list, from, cells, i),
        first_wanted(e, list, from, cells, j),
    ensures
        i == j,
{
    if i < j {
        assert(!wanted(e, list[i], cells));
    }
    if j < i {
        assert(!wanted(e, list[j], cells));
    }
}

/// Working a planet, once its combinations are done, spends one cell per
/// wanted basic kind in the order the planet lists them: after generating
/// the first wanted kind, while a cell is left and a later listed kind is
/// still wanted, the next step generates again, a kind listed after the
/// first and no later than that one.
pub proof fn law_exploit_generates_while_cells_last<T>(
    e0: CettoExplorer<T>,
    e1: CettoExplorer<T>,
    c0: ExploitCursor,
    c1: ExploitCursor,
    c2: ExploitCursor,
    r1: ExploitStep,
    r2: ExploitStep,
    j: int,
    k: int,
)
    requires
        c0.complex matches Some(cl) && c0.next_complex == cl@.len(),
        c0.basic matches Some(bl) && first_wanted(e0, bl@, c0.next_basic as int, c0.cells, j) && j < k < bl@.len()
            && wanted(e1, bl@[k], (c0.cells - 1) as u32),
        exploit_post(e0, c0, c1, r1),
        exploit_post(e1, c1, c2, r2),
    ensures
        r1 == ExploitStep::Generate(c0.basic->0@[j]),
        exists|i: int| j < i <= k && r2 == ExploitStep::Generate(#[trigger] c0.basic->0@[i]),
{
    let cl = c0.complex->0@;
    let bl = c0.basic->0@;
    assert(!exists|i: int| #[trigger] crate::cetto::turn::first_combinable(e0, cl, c0.next_complex as int, c0.cells, i));
    assert(c0.cells > 0);
    let jj = choose|i: int| #[trigger] first_wanted(e0, bl, c0.next_basic as int, c0.cells, i) && {
        &&& r1 == ExploitStep::Generate(bl[i])
        &&& c1 == ExploitCursor {
            cells: (c0.cells - 1) as u32,
            next_complex: cl.len() as usize,
            next_basic: (i + 1) as usize,
            ..c0
        }
    };
    lemma_first_wanted_unique(e0, bl, c0.next_basic as int, c0.cells, j, jj);
    assert(c0.basic->0.len() == bl.len());
    assert(j + 1 <= usize::MAX);
    assert(c1.complex == c0.complex);
    assert(c1.basic == c0.basic);
    assert(c1.next_complex == cl.len());
    assert(c1.next_basic == j + 1);
    assert(!exists|i: int| #[trigger] crate::cetto::turn::first_combinable(e1, cl, c1.next_complex as int, c1.cells, i));
    assert(c1.cells > 0);
    lemma_some_first_wanted(e1, bl, j + 1, c1.cells, k);
    let j2 = choose|i: int| #[trigger] first_wanted(e1, bl, c1.next_basic as int, c1.cells, i) && r2 == ExploitStep::Generate(bl[i]);
    let w = choose|i: int| j + 1 <= i <= k && #[trigger] first_wanted(e1, bl, j + 1, c1.cells, i);
    lemma_first_wanted_unique(e1, bl, j + 1, c1.cells, j2, w);
    assert(j < j2 <= k && r2 == ExploitStep::Generate(bl[j2]));
}

} // verus!
