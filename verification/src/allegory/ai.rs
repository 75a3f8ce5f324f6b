//! The allegory explorer's strategy: one decision per turn, driven by the
//! state of its strategy (exploring, collecting, crafting) and by what it
//! knows of the galaxy.

use vstd::prelude::*;
use crate::allegory::explorer::{crafting_list, shopping_list, task_met, AllegoryExplorer};
use crate::allegory::knowledge::{
    is_first_planet, is_first_step, is_next_hop, knows, listed_as_neighbor, produces, ExplorerKnowledge,
    PlanetKnowledge, StrategyState,
};
use crate::bag::{after_take_one, can_take_two, held};
use crate::protocol::{ComplexResourceRequest, ExplorerToOrchestrator, ExplorerToPlanet};
use crate::resources::{recipe, BasicResourceType, ComplexResourceType, PlanetType, ResourceType};

verus! {

/// The first entry of a known planet.
pub open spec fn first_entry(ps: Seq<PlanetKnowledge>, id: u32) -> PlanetKnowledge {
    ps[choose|i: int| is_first_planet(ps, id, i)]
}

/// The destination still ahead: none once the current planet is reached.
pub open spec fn remaining_target(target: Option<u32>, cur: u32) -> Option<u32> {
    if target == Some(cur) {
        None
    } else {
        target
    }
}

/// `m` asks the orchestrator to move explorer `id` from `cur` one step
/// towards `target`.
pub open spec fn is_travel(m: Option<ExplorerToOrchestrator>, id: u32, cur: u32, ps: Seq<PlanetKnowledge>, target: Option<u32>) -> bool {
    m matches Some(ExplorerToOrchestrator::TravelToPlanetRequest { explorer_id, current_planet_id, dst_planet_id })
        && explorer_id == id && current_planet_id == cur && is_next_hop(ps, target, cur, dst_planet_id)
}

/// `u` lists the planets some known planet names as a neighbour but that
/// are not known themselves.
pub open spec fn is_unexplored(ps: Seq<PlanetKnowledge>, u: Seq<u32>) -> bool {
    forall|v: u32| #[trigger] u.contains(v) <==> listed_as_neighbor(ps, v) && !knows(ps, v)
}

/// Entry `i` of `list` has the largest count (ties may go either way).
pub open spec fn is_neediest<K>(list: Seq<(K, usize)>, i: int) -> bool {
    &&& 0 <= i < list.len()
    &&& forall|j: int| 0 <= j < list.len() ==> list[j].1 <= #[trigger] list[i].1
}

/// Entry `i` of `list` is the last one whose kind `supported` holds.
pub open spec fn is_last_supported<K>(list: Seq<(K, usize)>, supported: Seq<K>, i: int) -> bool {
    &&& 0 <= i < list.len()
    &&& supported.contains(list[i].0)
    &&& forall|j: int| i < j < list.len() ==> !supported.contains(#[trigger] list[j].0)
}

/// No entry of `list` has a kind `supported` holds.
pub open spec fn none_supported<K>(list: Seq<(K, usize)>, supported: Seq<K>) -> bool {
    forall|j: int| 0 <= j < list.len() ==> !supported.contains(#[trigger] list[j].0)
}

/// Planet entry `i` is the first one satisfying `wanted`, preferring planets
/// of type `ty`: the first wanted one of that type if any, else the first
/// wanted one.
pub open spec fn is_preferred(ps: Seq<PlanetKnowledge>, wanted: Seq<bool>, ty: PlanetType, i: int) -> bool {
    &&& 0 <= i < ps.len()
    &&& wanted[i]
    &&& if exists|k: int| 0 <= k < ps.len() && wanted[k] && ps[k].planet_type == ty {
        &&& ps[i].planet_type == ty
        &&& forall|k: int| 0 <= k < i ==> !(wanted[k] && #[trigger] ps[k].planet_type == ty)
    } else {
        forall|k: int| 0 <= k < i ==> !#[trigger] wanted[k]
    }
}

/// Which planet entries generate basic resource `b`.
pub open spec fn generating(ps: Seq<PlanetKnowledge>, b: BasicResourceType) -> Seq<bool> {
    Seq::new(ps.len(), |k: int| ps[k].resource_type@.contains(b))
}

/// Which planet entries combine complex resource `c`.
pub open spec fn combining(ps: Seq<PlanetKnowledge>, c: ComplexResourceType) -> Seq<bool> {
    Seq::new(ps.len(), |k: int| ps[k].combinations@.contains(c))
}

/// `r` is the planet chosen among the entries `wanted` marks, or `None`
/// when no entry is marked.
pub open spec fn is_choice(ps: Seq<PlanetKnowledge>, wanted: Seq<bool>, ty: PlanetType, r: Option<u32>) -> bool {
    match r {
        None => forall|k: int| 0 <= k < ps.len() ==> !#[trigger] wanted[k],
        Some(id) => exists|i: int| #[trigger] is_preferred(ps, wanted, ty, i) && ps[i].id == id,
    }
}

/// `bag1` and `req` are the bag and the request after the ingredients of
/// `c` were taken from `bag0`.
pub open spec fn took_ingredients<T>(bag0: Map<ResourceType, Seq<T>>, bag1: Map<ResourceType, Seq<T>>, c: ComplexResourceType, req: ComplexResourceRequest<T>) -> bool {
    let (a, b) = recipe(c);
    &&& can_take_two(bag0, a, b)
    &&& req.target == c
    &&& req.first == held(bag0, a).last()
    &&& req.second == held(after_take_one(bag0, a), b).last()
    &&& bag1 == after_take_one(after_take_one(bag0, a), b)
}

/// `m` asks planet to combine `c` from the ingredients taken from `bag0`,
/// leaving `bag1`.
pub open spec fn is_combine<T>(m: Option<ExplorerToPlanet<T>>, id: u32, bag0: Map<ResourceType, Seq<T>>, bag1: Map<ResourceType, Seq<T>>, c: ComplexResourceType) -> bool {
    m matches Some(ExplorerToPlanet::CombineResourceRequest { explorer_id, msg }) && explorer_id == id
        && took_ingredients(bag0, bag1, c, msg)
}

/// Entry `i` of the crafting list is the first complex resource the current
/// planet combines.
pub open spec fn is_first_craftable(ps: Seq<PlanetKnowledge>, cur: u32, list: Seq<(ComplexResourceType, usize)>, i: int) -> bool {
    &&& 0 <= i < list.len()
    &&& produces(ps, cur, ResourceType::Complex(list[i].0))
    &&& forall|j: int| 0 <= j < i ==> !produces(ps, cur, ResourceType::Complex(#[trigger] list[j].0))
}

/// The current planet is known and has charged cells.
pub open spec fn has_cells(ps: Seq<PlanetKnowledge>, cur: u32) -> bool {
    knows(ps, cur) && first_entry(ps, cur).latest_cells_number > 0
}

/// Some complex resource of the list is one the current planet combines.
pub open spec fn some_craftable(ps: Seq<PlanetKnowledge>, cur: u32, list: Seq<(ComplexResourceType, usize)>) -> bool {
    exists|i: int| 0 <= i < list.len() && produces(ps, cur, ResourceType::Complex(#[trigger] list[i].0))
}

/// The complex resource the crafting step combines right away, when the
/// current planet has charged cells and combines something on the list.
pub open spec fn first_craftable(ps: Seq<PlanetKnowledge>, cur: u32, list: Seq<(ComplexResourceType, usize)>) -> ComplexResourceType {
    list[choose|i: int| is_first_craftable(ps, cur, list, i)].0
}

/// The inputs on which a decision step is defined. A collecting step with
/// something left to collect needs the current planet to be known; a
/// crafting step with something left to craft needs it too, and, when the
/// planet has charged cells and combines something on the list, it needs the
/// bag to hold the ingredients of the first such resource.
pub open spec fn step_defined<T>(e: AllegoryExplorer<T>, state: StrategyState) -> bool {
    let ps = e.knowledge.planets@;
    let cur = e.current_planet_id;
    remaining_target(e.knowledge.current_target_planet, cur) is None ==> {
        &&& (state == StrategyState::Collecting && shopping_list(e.simple_resources_task@, e.bag_content.content@).len() > 0)
            ==> knows(ps, cur)
        &&& (state == StrategyState::Crafting && !task_met(e.task@, e.bag_content.content@)
            && crafting_list(e.task@, e.bag_content.content@).len() > 0) ==> {
            &&& knows(ps, cur)
            &&& (has_cells(ps, cur) && some_craftable(ps, cur, crafting_list(e.task@, e.bag_content.content@))) ==> {
                let c = first_craftable(ps, cur, crafting_list(e.task@, e.bag_content.content@));
                can_take_two(e.bag.items@, recipe(c).0, recipe(c).1)
            }
        }
    }
}

pub proof fn lemma_first_entry(ps: Seq<PlanetKnowledge>, id: u32, i: int)
    requires
        is_first_planet(ps, id, i),
    ensures
        first_entry(ps, id) == ps[i],
{
    let j = choose|j: int| is_first_planet(ps, id, j);
    assert(is_first_planet(ps, id, j));
    if j < i {
        assert(ps[j].id != id);
    }
    if i < j {
        assert(ps[i].id != id);
    }
}

proof fn lemma_first_below(ps: Seq<PlanetKnowledge>, id: u32, k: int)
    requires
        0 <= k < ps.len(),
        ps[k].id == id,
    ensures
        exists|i: int| is_first_planet(ps, id, i),
    decreases k,
{
    if exists|j: int| 0 <= j < k && ps[j].id == id {
        let j = choose|j: int| 0 <= j < k && ps[j].id == id;
        lemma_first_below(ps, id, j);
    } else {
        assert(is_first_planet(ps, id, k));
    }
}

proof fn lemma_known_first(ps: Seq<PlanetKnowledge>, id: u32)
    requires
        knows(ps, id),
    ensures
        exists|i: int| is_first_planet(ps, id, i),
        is_first_planet(ps, id, choose|i: int| is_first_planet(ps, id, i)),
{
    let k = choose|k: int| 0 <= k < ps.len() && ps[k].id == id;
    lemma_first_below(ps, id, k);
}

/// Whether a list of basic kinds holds `x`.
fn holds_basic(v: &Vec<BasicResourceType>, x: BasicResourceType) -> (r: bool)
    ensures
        r == v@.contains(x),
{
    let mut i: usize = 0;
    while i < v.len()
        invariant
            i <= v@.len(),
            forall|j: int| 0 <= j < i ==> v@[j] != x,
        decreases v@.len() - i,
    {
        if v[i] == x {
            assert(v@[i as int] == x);
            return true;
        }
        i = i + 1;
    }
    false
}

/// Whether a list of complex kinds holds `x`.
fn holds_complex(v: &Vec<ComplexResourceType>, x: ComplexResourceType) -> (r: bool)
    ensures
        r == v@.contains(x),
{
    let mut i: usize = 0;
    while i < v.len()
        invariant
            i <= v@.len(),
            forall|j: int| 0 <= j < i ==> v@[j] != x,
        decreases v@.len() - i,
    {
        if v[i] == x {
            assert(v@[i as int] == x);
            return true;
        }
        i = i + 1;
    }
    false
}

/// Index of an entry with the largest count; the last one among equals.
fn neediest_index<K>(list: &Vec<(K, usize)>) -> (i: usize)
    requires
        list@.len() > 0,
    ensures
        is_neediest(list@, i as int),
{
    let mut best: usize = 0;
    let mut k: usize = 1;
    while k < list.len()
        invariant
            1 <= k <= list@.len(),
            best < k,
            forall|j: int| 0 <= j < k ==> list@[j].1 <= list@[best as int].1,
        decreases list@.len() - k,
    {
        if list[k].1 >= list[best].1 {
            best = k;
        }
        k = k + 1;
    }
    best
}

/// Index of the last basic entry whose kind `supported` holds.
fn last_supported_basic(list: &Vec<(BasicResourceType, usize)>, supported: &Vec<BasicResourceType>) -> (r: Option<usize>)
    ensures
        match r {
            None => none_supported(list@, supported@),
            Some(i) => is_last_supported(list@, supported@, i as int),
        },
{
    let mut found: Option<usize> = None;
    let mut k: usize = 0;
    while k < list.len()
        invariant
            k <= list@.len(),
            match found {
                None => forall|j: int| 0 <= j < k ==> !supported@.contains(#[trigger] list@[j].0),
                Some(i) => i < k && supported@.contains(list@[i as int].0)
                    && forall|j: int| i < j < k ==> !supported@.contains(#[trigger] list@[j].0),
            },
        decreases list@.len() - k,
    {
        if holds_basic(supported, list[k].0) {
            found = Some(k);
        }
        k = k + 1;
    }
    found
}

/// Index of the last complex entry whose kind `supported` holds.
fn last_supported_complex(list: &Vec<(ComplexResourceType, usize)>, supported: &Vec<ComplexResourceType>) -> (r: Option<usize>)
    ensures
        match r {
            None => none_supported(list@, supported@),
            Some(i) => is_last_supported(list@, supported@, i as int),
        },
{
    let mut found: Option<usize> = None;
    let mut k: usize = 0;
    while k < list.len()
        invariant
            k <= list@.len(),
            match found {
                None => forall|j: int| 0 <= j < k ==> !supported@.contains(#[trigger] list@[j].0),
                Some(i) => i < k && supported@.contains(list@[i as int].0)
                    && forall|j: int| i < j < k ==> !supported@.contains(#[trigger] list@[j].0),
            },
        decreases list@.len() - k,
    {
        if holds_complex(supported, list[k].0) {
            found = Some(k);
        }
        k = k + 1;
    }
    found
}

impl ExplorerKnowledge {
    /// The planet to gather basic resource `b` on: the first known planet
    /// of type A that generates it, else the first that generates it.
    pub fn choose_gatherer(&self, b: BasicResourceType) -> (r: Option<u32>)
        ensures
            is_choice(self.planets@, generating(self.planets@, b), PlanetType::A, r),
    {
        let ghost ps = self.planets@;
        let ghost wanted = generating(ps, b);
        let mut first: Option<usize> = None;
        let mut preferred: Option<usize> = None;
        let mut k: usize = 0;
        while k < self.planets.len()
            invariant
                ps == self.planets@,
                wanted == generating(ps, b),
                k <= ps.len(),
                match first {
                    None => forall|j: int| 0 <= j < k ==> !#[trigger] wanted[j],
                    Some(i) => i < k && wanted[i as int] && forall|j: int| 0 <= j < i ==> !#[trigger] wanted[j],
                },
                match preferred {
                    None => forall|j: int| 0 <= j < k ==> !(wanted[j] && #[trigger] ps[j].planet_type == PlanetType::A),
                    Some(i) => i < k && wanted[i as int] && ps[i as int].planet_type == PlanetType::A
                        && forall|j: int| 0 <= j < i ==> !(wanted[j] && #[trigger] ps[j].planet_type == PlanetType::A),
                },
            decreases ps.len() - k,
        {
            let w = holds_basic(&self.planets[k].resource_type, b);
            proof {
                assert(wanted[k as int] == w);
            }
            if w {
                if first.is_none() {
                    first = Some(k);
                }
                if preferred.is_none() && self.planets[k].planet_type == PlanetType::A {
                    preferred = Some(k);
                }
            }
            k = k + 1;
        }
        match preferred {
            Some(i) => {
                let r = Some(self.planets[i].id);
                proof {
                    assert(is_preferred(ps, wanted, PlanetType::A, i as int));
                }
                r
            },
            None => match first {
                Some(i) => {
                    let r = Some(self.planets[i].id);
                    proof {
                        assert(is_preferred(ps, wanted, PlanetType::A, i as int));
                    }
                    r
                },
                None => None,
            },
        }
    }

    /// The planet to craft complex resource `c` on: the first known planet
    /// of type C that combines it, else the first that combines it.
    pub fn choose_crafter(&self, c: ComplexResourceType) -> (r: Option<u32>)
        ensures
            is_choice(self.planets@, combining(self.planets@, c), PlanetType::C, r),
    {
        let ghost ps = self.planets@;
        let ghost wanted = combining(ps, c);
        let mut first: Option<usize> = None;
        let mut preferred: Option<usize> = None;
        let mut k: usize = 0;
        while k < self.planets.len()
            invariant
                ps == self.planets@,
                wanted == combining(ps, c),
                k <= ps.len(),
                match first {
                    None => forall|j: int| 0 <= j < k ==> !#[trigger] wanted[j],
                    Some(i) => i < k && wanted[i as int] && forall|j: int| 0 <= j < i ==> !#[trigger] wanted[j],
                },
                match preferred {
                    None => forall|j: int| 0 <= j < k ==> !(wanted[j] && #[trigger] ps[j].planet_type == PlanetType::C),
                    Some(i) => i < k && wanted[i as int] && ps[i as int].planet_type == PlanetType::C
                        && forall|j: int| 0 <= j < i ==> !(wanted[j] && #[trigger] ps[j].planet_type == PlanetType::C),
                },
            decreases ps.len() - k,
        {
            let w = holds_complex(&self.planets[k].combinations, c);
            proof {
                assert(wanted[k as int] == w);
            }
            if w {
                if first.is_none() {
                    first = Some(k);
                }
                if preferred.is_none() && self.planets[k].planet_type == PlanetType::C {
                    preferred = Some(k);
                }
            }
            k = k + 1;
        }
        match preferred {
            Some(i) => {
                let r = Some(self.planets[i].id);
                proof {
                    assert(is_preferred(ps, wanted, PlanetType::C, i as int));
                }
                r
            },
            None => match first {
                Some(i) => {
                    let r = Some(self.planets[i].id);
                    proof {
                        assert(is_preferred(ps, wanted, PlanetType::C, i as int));
                    }
                    r
                },
                None => None,
            },
        }
    }
}


/// What one decision step asks for: a message to the orchestrator and a
/// message to the current planet, each possibly absent.
pub type Step<T> = (Option<ExplorerToOrchestrator>, Option<ExplorerToPlanet<T>>);

/// The step asks for nothing.
pub open spec fn is_idle<T>(r: Step<T>) -> bool {
    r.0 is None && r.1 is None
}

/// A step leaves the explorer's identity, position, mode, tables and known
/// planets as they were.
pub open spec fn step_frame<T>(e0: AllegoryExplorer<T>, e1: AllegoryExplorer<T>) -> bool {
    &&& e1.id == e0.id
    &&& e1.current_planet_id == e0.current_planet_id
    &&& e1.mode == e0.mode
    &&& e1.bag_content == e0.bag_content
    &&& e1.task == e0.task
    &&& e1.simple_resources_task == e0.simple_resources_task
    &&& e1.knowledge.planets == e0.knowledge.planets
}

/// The step keeps the strategy state, sets no destination and keeps the bag.
pub open spec fn keeps_course<T>(e0: AllegoryExplorer<T>, e1: AllegoryExplorer<T>) -> bool {
    &&& e1.knowledge.current_state == e0.knowledge.current_state
    &&& e1.knowledge.current_target_planet is None
    &&& e1.bag.items@ == e0.bag.items@
}

/// The step moves the strategy to `state`, sets no destination, keeps the
/// bag and asks for nothing.
pub open spec fn switches_to<T>(e0: AllegoryExplorer<T>, e1: AllegoryExplorer<T>, r: Step<T>, state: StrategyState) -> bool {
    &&& e1.knowledge.current_state == state
    &&& e1.knowledge.current_target_planet is None
    &&& e1.bag.items@ == e0.bag.items@
    &&& is_idle(r)
}

/// The step sets destination `p`, keeps the state and the bag, and asks the
/// orchestrator for the first step towards `p`.
pub open spec fn heads_for<T>(e0: AllegoryExplorer<T>, e1: AllegoryExplorer<T>, r: Step<T>, p: u32) -> bool {
    &&& e1.knowledge.current_state == e0.knowledge.current_state
    &&& e1.knowledge.current_target_planet == Some(p)
    &&& e1.bag.items@ == e0.bag.items@
    &&& r.1 is None
    &&& is_travel(r.0, e0.id, e0.current_planet_id, e0.knowledge.planets@, Some(p))
}

/// The exploring step, from an explorer with no destination: ask for what
/// is missing about the current planet, else head for the nearest planet not
/// yet known, else move on to collecting.
pub open spec fn exploring_post<T>(e0: AllegoryExplorer<T>, e1: AllegoryExplorer<T>, r: Step<T>) -> bool {
    let ps = e0.knowledge.planets@;
    let cur = e0.current_planet_id;
    let id = e0.id;
    let ask_neighbors = r.0 == Some(ExplorerToOrchestrator::NeighborsRequest { explorer_id: id, current_planet_id: cur })
        && r.1 is None;
    if !knows(ps, cur) || first_entry(ps, cur).neighbors@.len() == 0 {
        keeps_course(e0, e1) && ask_neighbors
    } else if first_entry(ps, cur).resource_type@.len() == 0 {
        keeps_course(e0, e1) && r.0 is None && r.1 == Some(ExplorerToPlanet::<T>::SupportedResourceRequest { explorer_id: id })
    } else if first_entry(ps, cur).combinations@.len() == 0 {
        keeps_course(e0, e1) && r.0 is None && r.1 == Some(ExplorerToPlanet::<T>::SupportedCombinationRequest { explorer_id: id })
    } else {
        exists|u: Seq<u32>, s: Option<u32>|
            #[trigger] is_unexplored(ps, u) && #[trigger] is_first_step(ps, cur, u, s) && match s {
                None => switches_to(e0, e1, r, StrategyState::Collecting),
                Some(h) => heads_for(e0, e1, r, h),
            }
    }
}

impl<T> AllegoryExplorer<T> {
    fn step_exploring(&mut self) -> (r: Step<T>)
        requires
            old(self).wf(),
            old(self).knowledge.current_target_planet is None,
        ensures
            final(self).wf(),
            step_frame(*old(self), *final(self)),
            exploring_post(*old(self), *final(self), r),
    {
        let ghost ps = self.knowledge.planets@;
        let cur = self.current_planet_id;
        match self.knowledge.get_planet_knowledge(cur) {
            None => {
                return (Some(ExplorerToOrchestrator::NeighborsRequest { explorer_id: self.id, current_planet_id: cur }), None);
            },
            Some(pk) => {
                proof {
                    let i = choose|i: int| is_first_planet(ps, cur, i) && *pk == ps[i];
                    lemma_first_entry(ps, cur, i);
                }
                if pk.neighbors.len() == 0 {
                    return (Some(ExplorerToOrchestrator::NeighborsRequest { explorer_id: self.id, current_planet_id: cur }), None);
                }
                if pk.resource_type.len() == 0 {
                    return (None, Some(ExplorerToPlanet::SupportedResourceRequest { explorer_id: self.id }));
                }
                if pk.combinations.len() == 0 {
                    return (None, Some(ExplorerToPlanet::SupportedCombinationRequest { explorer_id: self.id }));
                }
            },
        }
        let unexplored = self.knowledge.get_unexplored_planets();
        let step = self.find_first_unexplored(&unexplored);
        proof {
            assert(is_unexplored(ps, unexplored@));
        }
        match step {
            None => {
                self.change_state(StrategyState::Collecting);
                let r: Step<T> = (None, None);
                proof {
                    assert(is_first_step(ps, cur, unexplored@, step));
                    assert(switches_to(*old(self), *final(self), r, StrategyState::Collecting));
                }
                r
            },
            Some(h) => {
                self.knowledge.set_destination(Some(h));
                let hop = self.knowledge.get_next_hop(cur);
                let r: Step<T> = (Some(ExplorerToOrchestrator::TravelToPlanetRequest { explorer_id: self.id, current_planet_id: cur, dst_planet_id: hop }), None);
                proof {
                    assert(is_first_step(ps, cur, unexplored@, step));
                    assert(heads_for(*old(self), *final(self), r, h));
                }
                r
            },
        }
    }
}


/// The collecting step, from an explorer with no destination: with nothing
/// left to collect, move on to crafting; else generate on the current planet
/// a missing resource it supports, else head for a planet that generates the
/// most needed one, else give up.
pub open spec fn collecting_post<T>(e0: AllegoryExplorer<T>, e1: AllegoryExplorer<T>, r: Step<T>) -> bool {
    let ps = e0.knowledge.planets@;
    let cur = e0.current_planet_id;
    let list = shopping_list(e0.simple_resources_task@, e0.bag_content.content@);
    let supported = first_entry(ps, cur).resource_type@;
    if list.len() == 0 {
        switches_to(e0, e1, r, StrategyState::Crafting)
    } else if !none_supported(list, supported) {
        exists|i: int| #[trigger] is_last_supported(list, supported, i) && keeps_course(e0, e1) && r.0 is None
            && r.1 == Some(ExplorerToPlanet::<T>::GenerateResourceRequest { explorer_id: e0.id, resource: list[i].0 })
    } else {
        exists|i: int, s: Option<u32>|
            #[trigger] is_neediest(list, i) && #[trigger] is_choice(ps, generating(ps, list[i].0), PlanetType::A, s)
                && match s {
                None => switches_to(e0, e1, r, StrategyState::Failed),
                Some(p) => heads_for(e0, e1, r, p),
            }
    }
}

/// The crafting step, from an explorer with no destination: finish when the
/// task is met; with nothing left to craft, go back to collecting if
/// something is left to collect; else combine on the current planet the
/// first listed resource it combines, when it has charged cells; else
/// combine a listed resource it supports, going back to collecting when the
/// bag lacks the ingredients; else head for a planet that combines the most
/// needed one, else give up.
pub open spec fn crafting_post<T>(e0: AllegoryExplorer<T>, e1: AllegoryExplorer<T>, r: Step<T>) -> bool {
    let ps = e0.knowledge.planets@;
    let cur = e0.current_planet_id;
    let clist = crafting_list(e0.task@, e0.bag_content.content@);
    let supported = first_entry(ps, cur).combinations@;
    if task_met(e0.task@, e0.bag_content.content@) {
        switches_to(e0, e1, r, StrategyState::Finished)
    } else if clist.len() == 0 {
        if shopping_list(e0.simple_resources_task@, e0.bag_content.content@).len() > 0 {
            switches_to(e0, e1, r, StrategyState::Collecting)
        } else {
            keeps_course(e0, e1) && is_idle(r)
        }
    } else if has_cells(ps, cur) && some_craftable(ps, cur, clist) {
        &&& e1.knowledge.current_state == e0.knowledge.current_state
        &&& e1.knowledge.current_target_planet is None
        &&& r.0 is None
        &&& is_combine(r.1, e0.id, e0.bag.items@, e1.bag.items@, first_craftable(ps, cur, clist))
    } else if !none_supported(clist, supported) {
        exists|i: int| #[trigger] is_last_supported(clist, supported, i) && if can_take_two(e0.bag.items@, recipe(clist[i].0).0, recipe(clist[i].0).1) {
            &&& e1.knowledge.current_state == e0.knowledge.current_state
            &&& e1.knowledge.current_target_planet is None
            &&& r.0 is None
            &&& is_combine(r.1, e0.id, e0.bag.items@, e1.bag.items@, clist[i].0)
        } else {
            switches_to(e0, e1, r, StrategyState::Collecting)
        }
    } else {
        exists|i: int, s: Option<u32>|
            #[trigger] is_neediest(clist, i) && #[trigger] is_choice(ps, combining(ps, clist[i].0), PlanetType::C, s)
                && match s {
                None => switches_to(e0, e1, r, StrategyState::Failed),
                Some(p) => heads_for(e0, e1, r, p),
            }
    }
}

impl<T> AllegoryExplorer<T> {
    fn step_collecting(&mut self) -> (r: Step<T>)
        requires
            old(self).wf(),
            old(self).knowledge.current_target_planet is None,
            step_defined(*old(self), StrategyState::Collecting),
        ensures
            final(self).wf(),
            step_frame(*old(self), *final(self)),
            collecting_post(*old(self), *final(self), r),
    {
        let ghost ps = self.knowledge.planets@;
        let cur = self.current_planet_id;
        match self.anything_left_on_the_shopping_list() {
            None => {
                self.change_state(StrategyState::Crafting);
                (None, None)
            },
            Some(list) => {
                let pk = match self.knowledge.get_planet_knowledge(cur) {
                    Some(pk) => pk,
                    None => {
                        proof {
                            assert(false);
                        }
                        return (None, None);
                    },
                };
                proof {
                    let i = choose|i: int| is_first_planet(ps, cur, i) && *pk == ps[i];
                    lemma_first_entry(ps, cur, i);
                }
                match last_supported_basic(&list, &pk.resource_type) {
                    Some(i) => {
                        let r: Step<T> = (None, Some(ExplorerToPlanet::GenerateResourceRequest { explorer_id: self.id, resource: list[i].0 }));
                        proof {
                            assert(is_last_supported(list@, first_entry(ps, cur).resource_type@, i as int));
                        }
                        r
                    },
                    None => {
                        let n = neediest_index(&list);
                        let needed = list[n].0;
                        let choice = self.knowledge.choose_gatherer(needed);
                        match choice {
                            None => {
                                self.change_state(StrategyState::Failed);
                                let r: Step<T> = (None, None);
                                proof {
                                    assert(is_neediest(list@, n as int) && is_choice(ps, generating(ps, list@[n as int].0), PlanetType::A, choice));
                                }
                                r
                            },
                            Some(p) => {
                                self.knowledge.set_destination(Some(p));
                                let hop = self.knowledge.get_next_hop(cur);
                                let r: Step<T> = (Some(ExplorerToOrchestrator::TravelToPlanetRequest { explorer_id: self.id, current_planet_id: cur, dst_planet_id: hop }), None);
                                proof {
                                    assert(is_neediest(list@, n as int) && is_choice(ps, generating(ps, list@[n as int].0), PlanetType::A, choice));
                                    assert(heads_for(*old(self), *final(self), r, p));
                                }
                                r
                            },
                        }
                    },
                }
            },
        }
    }
}


/// Index of the first listed complex resource the current planet combines.
pub fn first_craftable_index(k: &ExplorerKnowledge, cur: u32, list: &Vec<(ComplexResourceType, usize)>) -> (r: Option<usize>)
    ensures
        match r {
            None => !some_craftable(k.planets@, cur, list@),
            Some(i) => is_first_craftable(k.planets@, cur, list@, i as int),
        },
{
    let mut j: usize = 0;
    while j < list.len()
        invariant
            j <= list@.len(),
            forall|m: int| 0 <= m < j ==> !produces(k.planets@, cur, ResourceType::Complex(#[trigger] list@[m].0)),
        decreases list@.len() - j,
    {
        if k.can_planet_produce(cur, ResourceType::Complex(list[j].0)) {
            return Some(j);
        }
        j = j + 1;
    }
    None
}

impl<T> AllegoryExplorer<T> {
    fn step_crafting(&mut self) -> (r: Step<T>)
        requires
            old(self).wf(),
            old(self).knowledge.current_target_planet is None,
            step_defined(*old(self), StrategyState::Crafting),
        ensures
            final(self).wf(),
            step_frame(*old(self), *final(self)),
            crafting_post(*old(self), *final(self), r),
    {
        let ghost ps = self.knowledge.planets@;
        let cur = self.current_planet_id;
        if self.verify_win() {
            self.change_state(StrategyState::Finished);
            return (None, None);
        }
        let list = match self.anything_left_on_the_crafting_list() {
            None => {
                if self.anything_left_on_the_shopping_list().is_some() {
                    self.change_state(StrategyState::Collecting);
                }
                return (None, None);
            },
            Some(list) => list,
        };
        let pk = match self.knowledge.get_planet_knowledge(cur) {
            Some(pk) => pk,
            None => {
                proof {
                    assert(false);
                }
                return (None, None);
            },
        };
        proof {
            let i = choose|i: int| is_first_planet(ps, cur, i) && *pk == ps[i];
            lemma_first_entry(ps, cur, i);
            lemma_known_first(ps, cur);
        }
        let cells = pk.latest_cells_number;
        let supported = pk.combinations.clone();
        proof {
            assert(supported@ =~= first_entry(ps, cur).combinations@);
            assert(has_cells(ps, cur) == (cells > 0));
        }
        if cells > 0 {
            match first_craftable_index(&self.knowledge, cur, &list) {
                Some(i) => {
                    let c = list[i].0;
                    proof {
                        assert(is_first_craftable(ps, cur, list@, i as int));
                        let j = choose|j: int| is_first_craftable(ps, cur, list@, j);
                        if j < i {
                            assert(!produces(ps, cur, ResourceType::Complex(list@[j].0)));
                        }
                        if i < j {
                            assert(!produces(ps, cur, ResourceType::Complex(list@[i as int].0)));
                        }
                        assert(first_craftable(ps, cur, list@) == c);
                    }
                    match self.create_complex_request(c) {
                        Some(req) => {
                            let r: Step<T> = (None, Some(ExplorerToPlanet::CombineResourceRequest { explorer_id: self.id, msg: req }));
                            proof {
                                assert(is_combine(r.1, old(self).id, old(self).bag.items@, self.bag.items@, c));
                            }
                            return r;
                        },
                        None => {
                            proof {
                                assert(false);
                            }
                            return (None, None);
                        },
                    }
                },
                None => {},
            }
        }
        proof {
            assert(!(has_cells(ps, cur) && some_craftable(ps, cur, list@)));
        }
        match last_supported_complex(&list, &supported) {
            Some(i) => {
                let c = list[i].0;
                proof {
                    assert(is_last_supported(list@, first_entry(ps, cur).combinations@, i as int));
                }
                match self.create_complex_request(c) {
                    None => {
                        self.change_state(StrategyState::Collecting);
                        let r: Step<T> = (None, None);
                        r
                    },
                    Some(req) => {
                        let r: Step<T> = (None, Some(ExplorerToPlanet::CombineResourceRequest { explorer_id: self.id, msg: req }));
                        proof {
                            assert(is_combine(r.1, old(self).id, old(self).bag.items@, self.bag.items@, c));
                        }
                        r
                    },
                }
            },
            None => {
                let n = neediest_index(&list);
                let needed = list[n].0;
                let choice = self.knowledge.choose_crafter(needed);
                match choice {
                    None => {
                        self.change_state(StrategyState::Failed);
                        let r: Step<T> = (None, None);
                        proof {
                            assert(is_neediest(list@, n as int) && is_choice(ps, combining(ps, list@[n as int].0), PlanetType::C, choice));
                        }
                        r
                    },
                    Some(p) => {
                        self.knowledge.set_destination(Some(p));
                        let hop = self.knowledge.get_next_hop(cur);
                        let r: Step<T> = (Some(ExplorerToOrchestrator::TravelToPlanetRequest { explorer_id: self.id, current_planet_id: cur, dst_planet_id: hop }), None);
                        proof {
                            assert(is_neediest(list@, n as int) && is_choice(ps, combining(ps, list@[n as int].0), PlanetType::C, choice));
                            assert(heads_for(*old(self), *final(self), r, p));
                        }
                        r
                    },
                }
            },
        }
    }
}


/// The explorer with its destination dropped.
pub open spec fn without_target<T>(e: AllegoryExplorer<T>) -> AllegoryExplorer<T> {
    AllegoryExplorer { knowledge: ExplorerKnowledge { current_target_planet: None, ..e.knowledge }, ..e }
}

/// One decision step in strategy state `state`. An explorer that has reached
/// its destination drops it; one still travelling asks for the next step of
/// its journey; otherwise the state decides.
pub open spec fn next_step_post<T>(e0: AllegoryExplorer<T>, e1: AllegoryExplorer<T>, state: StrategyState, r: Step<T>) -> bool {
    let e = without_target(e0);
    match remaining_target(e0.knowledge.current_target_planet, e0.current_planet_id) {
        Some(t) => {
            &&& e1.knowledge.current_state == e0.knowledge.current_state
            &&& e1.knowledge.current_target_planet == Some(t)
            &&& e1.bag.items@ == e0.bag.items@
            &&& r.1 is None
            &&& is_travel(r.0, e0.id, e0.current_planet_id, e0.knowledge.planets@, Some(t))
        },
        None => match state {
            StrategyState::Exploring => exploring_post(e, e1, r),
            StrategyState::Collecting => collecting_post(e, e1, r),
            StrategyState::Crafting => crafting_post(e, e1, r),
            StrategyState::Finished | StrategyState::Failed => keeps_course(e, e1) && is_idle(r),
        },
    }
}

impl<T> AllegoryExplorer<T> {
    /// Decides what to ask for this turn, given the state of the strategy.
    pub fn next_step(&mut self, state: StrategyState) -> (r: Step<T>)
        requires
            old(self).wf(),
            step_defined(*old(self), state),
        ensures
            final(self).wf(),
            step_frame(*old(self), *final(self)),
            next_step_post(*old(self), *final(self), state, r),
    {
        let cur = self.current_planet_id;
        let destination = self.knowledge.get_target_planet();
        let mut travelling = false;
        match destination {
            Some(id) => {
                if id == cur {
                    self.knowledge.set_destination(None);
                } else {
                    travelling = true;
                }
            },
            None => {},
        }
        proof {
            if !travelling {
                assert(*self == without_target(*old(self)));
            }
        }
        if travelling {
            let hop = self.knowledge.get_next_hop(cur);
            return (Some(ExplorerToOrchestrator::TravelToPlanetRequest { explorer_id: self.id, current_planet_id: cur, dst_planet_id: hop }), None);
        }
        match state {
            StrategyState::Exploring => self.step_exploring(),
            StrategyState::Collecting => self.step_collecting(),
            StrategyState::Crafting => self.step_crafting(),
            StrategyState::Finished | StrategyState::Failed => (None, None),
        }
    }
}

} // verus!
