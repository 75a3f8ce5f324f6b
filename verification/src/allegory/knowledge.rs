//! What the allegory explorer knows about the galaxy.

use vstd::prelude::*;
use crate::graph::{adjacency_view, first_hop_towards, is_first_entry, is_first_hop, no_target_reachable, vec_contains};
use crate::resources::{BasicResourceType, ComplexResourceType, PlanetType, ResourceType};

verus! {

/// Progress of the explorer's strategy.
#[derive(Clone, Copy, Debug, PartialEq, Eq, Structural)]
pub enum StrategyState {
    Exploring,
    Collecting,
    Crafting,
    Finished,
    Failed,
}

/// Everything known about one planet: its id and type, whether it was
/// destroyed, its neighbours, the basic resources it generates, the complex
/// resources it combines and the number of charged cells last reported.
/// The lists are sets: only membership matters.
pub struct PlanetKnowledge {
    pub id: u32,
    pub planet_type: PlanetType,
    pub is_destroyed: bool,
    pub neighbors: Vec<u32>,
    pub resource_type: Vec<BasicResourceType>,
    pub combinations: Vec<ComplexResourceType>,
    pub latest_cells_number: u32,
}

impl PlanetKnowledge {
    /// Knowledge of a planet that is not (known to be) destroyed.
    pub fn new(
        id: u32,
        planet_type: PlanetType,
        neighbors: Vec<u32>,
        resource_type: Vec<BasicResourceType>,
        combinations: Vec<ComplexResourceType>,
        latest_cells_number: u32,
    ) -> (r: Self)
        ensures
            r == (PlanetKnowledge {
                id,
                planet_type,
                is_destroyed: false,
                neighbors,
                resource_type,
                combinations,
                latest_cells_number,
            }),
    {
        PlanetKnowledge {
            id,
            planet_type,
            is_destroyed: false,
            neighbors,
            resource_type,
            combinations,
            latest_cells_number,
        }
    }

    pub fn get_id(&self) -> (r: u32)
        ensures
            r == self.id,
    {
        self.id
    }

    pub fn get_planet_type(&self) -> (r: PlanetType)
        ensures
            r == self.planet_type,
    {
        self.planet_type
    }

    pub fn get_is_destroyed(&self) -> (r: bool)
        ensures
            r == self.is_destroyed,
    {
        self.is_destroyed
    }

    pub fn get_neighbors(&self) -> (r: &Vec<u32>)
        ensures
            r == &self.neighbors,
    {
        &self.neighbors
    }

    pub fn get_resource_type(&self) -> (r: &Vec<BasicResourceType>)
        ensures
            r == &self.resource_type,
    {
        &self.resource_type
    }

    pub fn get_combinations(&self) -> (r: &Vec<ComplexResourceType>)
        ensures
            r == &self.combinations,
    {
        &self.combinations
    }

    pub fn get_latest_cells_number(&self) -> (r: u32)
        ensures
            r == self.latest_cells_number,
    {
        self.latest_cells_number
    }
}

/// `i` is the first entry of planet `id` (the one every lookup uses).
pub open spec fn is_first_planet(ps: Seq<PlanetKnowledge>, id: u32, i: int) -> bool {
    &&& 0 <= i < ps.len()
    &&& ps[i].id == id
    &&& forall|j: int| 0 <= j < i ==> ps[j].id != id
}

/// Some entry describes planet `id`.
pub open spec fn knows(ps: Seq<PlanetKnowledge>, id: u32) -> bool {
    exists|i: int| 0 <= i < ps.len() && ps[i].id == id
}

/// The known galaxy as a map from planets to their neighbours.
pub open spec fn planet_graph(ps: Seq<PlanetKnowledge>) -> Seq<(u32, Seq<u32>)> {
    Seq::new(ps.len(), |i: int| (ps[i].id, ps[i].neighbors@))
}

/// Some known planet lists `v` as a neighbour.
pub open spec fn listed_as_neighbor(ps: Seq<PlanetKnowledge>, v: u32) -> bool {
    exists|i: int| 0 <= i < ps.len() && ps[i].neighbors@.contains(v)
}

/// The first entry of planet `id` lists `v` as a neighbour.
pub open spec fn first_lists(ps: Seq<PlanetKnowledge>, id: u32, v: u32) -> bool {
    exists|i: int| is_first_planet(ps, id, i) && ps[i].neighbors@.contains(v)
}

/// Whether the first entry of `planet` generates or combines `resource`.
pub open spec fn produces(ps: Seq<PlanetKnowledge>, planet: u32, resource: ResourceType) -> bool {
    exists|i: int|
        is_first_planet(ps, planet, i) && match resource {
            ResourceType::Basic(b) => ps[i].resource_type@.contains(b),
            ResourceType::Complex(c) => ps[i].combinations@.contains(c),
        }
}

/// `r` is where a traveller at `start` heading for `target` goes next: the
/// first step of a shortest known path, or `start` itself when there is no
/// target, the target is `start`, or no known path leads to it.
pub open spec fn is_next_hop(ps: Seq<PlanetKnowledge>, target: Option<u32>, start: u32, r: u32) -> bool {
    match target {
        None => r == start,
        Some(t) => if t == start || no_target_reachable(planet_graph(ps), start, seq![t]) {
            r == start
        } else {
            exists|d: int| #[trigger] is_first_hop(planet_graph(ps), start, seq![t], r, d)
        },
    }
}

/// `r` is the first step from `start` towards the nearest of `targets`, or
/// `None` when no known path leads to any of them.
pub open spec fn is_first_step(ps: Seq<PlanetKnowledge>, start: u32, targets: Seq<u32>, r: Option<u32>) -> bool {
    match r {
        None => no_target_reachable(planet_graph(ps), start, targets),
        Some(h) => exists|d: int| #[trigger] is_first_hop(planet_graph(ps), start, targets, h, d),
    }
}

/// Some of the first `n` elements of `s` is `v`.
pub open spec fn prefix_contains<T>(s: Seq<T>, n: int, v: T) -> bool {
    exists|k: int| 0 <= k < n && s[k] == v
}

proof fn lemma_prefix_contains_step<T>(s: Seq<T>, n: int, v: T)
    requires
        0 <= n < s.len(),
    ensures
        prefix_contains(s, n + 1, v) <==> prefix_contains(s, n, v) || s[n] == v,
{
    if prefix_contains(s, n + 1, v) && !prefix_contains(s, n, v) {
        let k = choose|k: int| 0 <= k < n + 1 && s[k] == v;
        if k < n {
            assert(prefix_contains(s, n, v));
        }
    }
    if s[n] == v {
        assert(0 <= n < n + 1 && s[n] == v);
    }
}

/// Everything the explorer knows about the galaxy: the state of its
/// strategy, the planet it is travelling to and the known planets.
pub struct ExplorerKnowledge {
    pub current_state: StrategyState,
    pub current_target_planet: Option<u32>,
    pub planets: Vec<PlanetKnowledge>,
}

impl Default for ExplorerKnowledge {
    fn default() -> (r: Self)
        ensures
            r.current_state == StrategyState::Exploring,
            r.current_target_planet is None,
            r.planets@.len() == 0,
    {
        ExplorerKnowledge {
            current_state: StrategyState::Exploring,
            current_target_planet: None,
            planets: Vec::new(),
        }
    }
}

/// A copy of a list of planet ids.
pub fn copy_ids(v: &Vec<u32>) -> (r: Vec<u32>)
    ensures
        r@ == v@,
{
    let mut r: Vec<u32> = Vec::new();
    let mut i: usize = 0;
    while i < v.len()
        invariant
            i <= v.len(),
            r@ == v@.subrange(0, i as int),
        decreases v.len() - i,
    {
        r.push(v[i]);
        i = i + 1;
        proof {
            assert(r@ =~= v@.subrange(0, i as int));
        }
    }
    proof {
        assert(r@ =~= v@);
    }
    r
}

/// A copy of a list of basic resource kinds.
pub fn copy_basic(v: &Vec<BasicResourceType>) -> (r: Vec<BasicResourceType>)
    ensures
        r@ == v@,
{
    let mut r: Vec<BasicResourceType> = Vec::new();
    let mut i: usize = 0;
    while i < v.len()
        invariant
            i <= v.len(),
            r@ == v@.subrange(0, i as int),
        decreases v.len() - i,
    {
        r.push(v[i]);
        i = i + 1;
        proof {
            assert(r@ =~= v@.subrange(0, i as int));
        }
    }
    proof {
        assert(r@ =~= v@);
    }
    r
}

/// A copy of a list of complex resource kinds.
pub fn copy_complex(v: &Vec<ComplexResourceType>) -> (r: Vec<ComplexResourceType>)
    ensures
        r@ == v@,
{
    let mut r: Vec<ComplexResourceType> = Vec::new();
    let mut i: usize = 0;
    while i < v.len()
        invariant
            i <= v.len(),
            r@ == v@.subrange(0, i as int),
        decreases v.len() - i,
    {
        r.push(v[i]);
        i = i + 1;
        proof {
            assert(r@ =~= v@.subrange(0, i as int));
        }
    }
    proof {
        assert(r@ =~= v@);
    }
    r
}

/// Adds `x` to a list that has no duplicates unless it is already there.
fn insert_unique(v: &mut Vec<u32>, x: u32)
    requires
        old(v)@.no_duplicates(),
    ensures
        final(v)@.no_duplicates(),
        final(v)@.to_set() == old(v)@.to_set().insert(x),
{
    proof {
        assert(old(v)@.to_set().insert(x) =~= old(v)@.push(x).to_set()) by {
            assert forall|y: u32| old(v)@.push(x).to_set().contains(y) implies old(v)@.to_set().insert(x).contains(y) by {
                let i = choose|i: int| 0 <= i < old(v)@.push(x).len() && old(v)@.push(x)[i] == y;
                if i < old(v)@.len() {
                    assert(old(v)@.contains(y));
                }
            }
            assert forall|y: u32| old(v)@.to_set().insert(x).contains(y) implies old(v)@.push(x).to_set().contains(y) by {
                if y == x {
                    assert(old(v)@.push(x)[old(v)@.len() as int] == x);
                } else {
                    let i = choose|i: int| 0 <= i < old(v)@.len() && old(v)@[i] == y;
                    assert(old(v)@.push(x)[i] == y);
                }
            }
        }
    }
    if !vec_contains(v, x) {
        v.push(x);
    } else {
        proof {
            assert(old(v)@.to_set().insert(x) =~= old(v)@.to_set());
        }
    }
}

impl ExplorerKnowledge {
    /// Knowledge in a given state with the given planets and no destination.
    pub fn new(
        current_state: StrategyState,
        planets: Vec<PlanetKnowledge>,
        pending_resources: Vec<(u32, ResourceType)>,
    ) -> (r: Self)
        ensures
            r.current_state == current_state,
            r.current_target_planet is None,
            r.planets == planets,
    {
        ExplorerKnowledge { current_state, current_target_planet: None, planets }
    }

    /// Index of the first entry of a planet.
    pub fn find_planet(&self, id: u32) -> (r: Option<usize>)
        ensures
            match r {
                Some(i) => is_first_planet(self.planets@, id, i as int),
                None => !knows(self.planets@, id),
            },
    {
        let mut i: usize = 0;
        while i < self.planets.len()
            invariant
                i <= self.planets@.len(),
                forall|j: int| 0 <= j < i ==> self.planets@[j].id != id,
            decreases self.planets@.len() - i,
        {
            if self.planets[i].id == id {
                return Some(i);
            }
            i = i + 1;
        }
        None
    }

    /// The knowledge of a planet (its first entry), if any.
    pub fn get_planet_knowledge(&self, planet_id: u32) -> (r: Option<&PlanetKnowledge>)
        ensures
            match r {
                Some(p) => exists|i: int| is_first_planet(self.planets@, planet_id, i) && *p == self.planets@[i],
                None => !knows(self.planets@, planet_id),
            },
    {
        match self.find_planet(planet_id) {
            Some(i) => Some(&self.planets[i]),
            None => None,
        }
    }

    /// The basic resources a known planet generates.
    pub fn get_resource_by_id(&self, id: u32) -> (r: Option<Vec<BasicResourceType>>)
        ensures
            match r {
                Some(v) => exists|i: int| is_first_planet(self.planets@, id, i) && v@ == self.planets@[i].resource_type@,
                None => !knows(self.planets@, id),
            },
    {
        match self.find_planet(id) {
            Some(i) => Some(copy_basic(&self.planets[i].resource_type)),
            None => None,
        }
    }

    /// The complex resources a known planet combines.
    pub fn get_combinations_by_id(&self, id: u32) -> (r: Option<Vec<ComplexResourceType>>)
        ensures
            match r {
                Some(v) => exists|i: int| is_first_planet(self.planets@, id, i) && v@ == self.planets@[i].combinations@,
                None => !knows(self.planets@, id),
            },
    {
        match self.find_planet(id) {
            Some(i) => Some(copy_complex(&self.planets[i].combinations)),
            None => None,
        }
    }

    /// Replaces the neighbours of a known planet; unknown planets are ignored.
    pub fn update_neighbors(&mut self, planet_id: u32, neighbors: Vec<u32>)
        ensures
            final(self).current_state == old(self).current_state,
            final(self).current_target_planet == old(self).current_target_planet,
            !knows(old(self).planets@, planet_id) ==> final(self).planets@ == old(self).planets@,
            forall|i: int| #[trigger] is_first_planet(old(self).planets@, planet_id, i) ==> final(self).planets@
                == old(self).planets@.update(i, PlanetKnowledge { neighbors: neighbors, ..old(self).planets@[i] }),
    {
        if let Some(i) = self.find_planet(planet_id) {
            let mut p = self.planets.remove(i);
            p.neighbors = neighbors;
            self.planets.insert(i, p);
            proof {
                assert(self.planets@ =~= old(self).planets@.update(i as int, PlanetKnowledge { neighbors: neighbors, ..old(self).planets@[i as int] }));
            }
        }
    }

    /// Replaces the basic resources of a known planet.
    pub fn update_planet_resource(&mut self, planet_id: u32, resources: Vec<BasicResourceType>)
        ensures
            final(self).current_state == old(self).current_state,
            final(self).current_target_planet == old(self).current_target_planet,
            !knows(old(self).planets@, planet_id) ==> final(self).planets@ == old(self).planets@,
            forall|i: int| #[trigger] is_first_planet(old(self).planets@, planet_id, i) ==> final(self).planets@
                == old(self).planets@.update(i, PlanetKnowledge { resource_type: resources, ..old(self).planets@[i] }),
    {
        if let Some(i) = self.find_planet(planet_id) {
            let mut p = self.planets.remove(i);
            p.resource_type = resources;
            self.planets.insert(i, p);
            proof {
                assert(self.planets@ =~= old(self).planets@.update(i as int, PlanetKnowledge { resource_type: resources, ..old(self).planets@[i as int] }));
            }
        }
    }

    /// Records the number of charged cells of a known planet.
    pub fn add_cell(&mut self, planet_id: u32, value: u32)
        ensures
            final(self).current_state == old(self).current_state,
            final(self).current_target_planet == old(self).current_target_planet,
            !knows(old(self).planets@, planet_id) ==> final(self).planets@ == old(self).planets@,
            forall|i: int| #[trigger] is_first_planet(old(self).planets@, planet_id, i) ==> final(self).planets@
                == old(self).planets@.update(i, PlanetKnowledge { latest_cells_number: value, ..old(self).planets@[i] }),
    {
        if let Some(i) = self.find_planet(planet_id) {
            let mut p = self.planets.remove(i);
            p.latest_cells_number = value;
            self.planets.insert(i, p);
            proof {
                assert(self.planets@ =~= old(self).planets@.update(i as int, PlanetKnowledge { latest_cells_number: value, ..old(self).planets@[i as int] }));
            }
        }
    }

    /// Marks a known planet as destroyed.
    pub fn update_killed_planet(&mut self, planet_id: u32)
        ensures
            final(self).current_state == old(self).current_state,
            final(self).current_target_planet == old(self).current_target_planet,
            !knows(old(self).planets@, planet_id) ==> final(self).planets@ == old(self).planets@,
            forall|i: int| #[trigger] is_first_planet(old(self).planets@, planet_id, i) ==> final(self).planets@
                == old(self).planets@.update(i, PlanetKnowledge { is_destroyed: true, ..old(self).planets@[i] }),
    {
        if let Some(i) = self.find_planet(planet_id) {
            let mut p = self.planets.remove(i);
            p.is_destroyed = true;
            self.planets.insert(i, p);
            proof {
                assert(self.planets@ =~= old(self).planets@.update(i as int, PlanetKnowledge { is_destroyed: true, ..old(self).planets@[i as int] }));
            }
        }
    }

    /// Replaces the complex resources a known planet combines.
    pub fn update_planet_combinations(&mut self, planet_id: u32, combination_list: Vec<ComplexResourceType>)
        ensures
            final(self).current_state == old(self).current_state,
            final(self).current_target_planet == old(self).current_target_planet,
            !knows(old(self).planets@, planet_id) ==> final(self).planets@ == old(self).planets@,
            forall|i: int| #[trigger] is_first_planet(old(self).planets@, planet_id, i) ==> final(self).planets@
                == old(self).planets@.update(i, PlanetKnowledge { combinations: combination_list, ..old(self).planets@[i] }),
    {
        if let Some(i) = self.find_planet(planet_id) {
            let mut p = self.planets.remove(i);
            p.combinations = combination_list;
            self.planets.insert(i, p);
            proof {
                assert(self.planets@ =~= old(self).planets@.update(i as int, PlanetKnowledge { combinations: combination_list, ..old(self).planets@[i as int] }));
            }
        }
    }

    /// The ids of all known planets, each once.
    pub fn get_explored_planets(&self) -> (r: Vec<u32>)
        ensures
            r@.no_duplicates(),
            forall|v: u32| r@.contains(v) <==> knows(self.planets@, v),
    {
        let mut r: Vec<u32> = Vec::new();
        let mut i: usize = 0;
        while i < self.planets.len()
            invariant
                i <= self.planets@.len(),
                r@.no_duplicates(),
                forall|v: u32| r@.to_set().contains(v) <==> exists|j: int| 0 <= j < i && self.planets@[j].id == v,
            decreases self.planets@.len() - i,
        {
            insert_unique(&mut r, self.planets[i].id);
            proof {
                assert forall|v: u32| r@.to_set().contains(v) <==> exists|j: int| 0 <= j < i + 1 && self.planets@[j].id == v by {
                    if exists|j: int| 0 <= j < i + 1 && self.planets@[j].id == v {
                        let j = choose|j: int| 0 <= j < i + 1 && self.planets@[j].id == v;
                        if j < i {
                            assert(exists|j: int| 0 <= j < i && self.planets@[j].id == v);
                        }
                    }
                }
            }
            i = i + 1;
        }
        proof {
            assert forall|v: u32| r@.contains(v) <==> knows(self.planets@, v) by {
                assert(r@.contains(v) <==> r@.to_set().contains(v));
            }
        }
        r
    }

    /// Planets some known planet lists as a neighbour but that are not known
    /// themselves, each once.
    pub fn get_unexplored_planets(&self) -> (r: Vec<u32>)
        ensures
            r@.no_duplicates(),
            forall|v: u32| r@.contains(v) <==> listed_as_neighbor(self.planets@, v) && !knows(self.planets@, v),
    {
        let mut r: Vec<u32> = Vec::new();
        let mut i: usize = 0;
        while i < self.planets.len()
            invariant
                i <= self.planets@.len(),
                r@.no_duplicates(),
                forall|v: u32| r@.contains(v) <==> (exists|j: int| 0 <= j < i && self.planets@[j].neighbors@.contains(v)) && !knows(self.planets@, v),
            decreases self.planets@.len() - i,
        {
            let nbrs = &self.planets[i].neighbors;
            let mut j: usize = 0;
            while j < nbrs.len()
                invariant
                    i < self.planets@.len(),
                    nbrs@ == self.planets@[i as int].neighbors@,
                    j <= nbrs@.len(),
                    r@.no_duplicates(),
                    forall|v: u32| r@.contains(v) <==> ((exists|jj: int| 0 <= jj < i && self.planets@[jj].neighbors@.contains(v)) || prefix_contains(nbrs@, j as int, v)) && !knows(self.planets@, v),
                decreases nbrs@.len() - j,
            {
                let v = nbrs[j];
                let ghost before = r@;
                let found = self.find_planet(v);
                if found.is_none() {
                    insert_unique(&mut r, v);
                    proof {
                        assert forall|x: u32| r@.contains(x) <==> before.contains(x) || x == v by {
                            assert(r@.contains(x) <==> r@.to_set().contains(x));
                            assert(before.contains(x) <==> before.to_set().contains(x));
                        }
                    }
                } else {
                    proof {
                        let q = found.unwrap();
                        assert(self.planets@[q as int].id == v);
                        assert(knows(self.planets@, v));
                    }
                }
                proof {
                    assert(v == nbrs@[j as int]);
                    assert(found.is_none() ==> !knows(self.planets@, v));
                    assert(found.is_none() ==> forall|x: u32| r@.contains(x) <==> before.contains(x) || x == v);
                    assert(found.is_some() ==> r@ == before && knows(self.planets@, v));
                    assert forall|x: u32| r@.contains(x) <==> ((exists|jj: int| 0 <= jj < i && self.planets@[jj].neighbors@.contains(x)) || prefix_contains(nbrs@, j + 1, x)) && !knows(self.planets@, x) by {
                        lemma_prefix_contains_step(nbrs@, j as int, x);
                        assert(before.contains(x) <==> ((exists|jj: int| 0 <= jj < i && self.planets@[jj].neighbors@.contains(x)) || prefix_contains(nbrs@, j as int, x)) && !knows(self.planets@, x));
                    }
                }
                j = j + 1;
            }
            proof {
                assert forall|x: u32| prefix_contains(nbrs@, nbrs@.len() as int, x) <==> nbrs@.contains(x) by {}
                assert forall|x: u32| r@.contains(x) <==> (exists|jj: int| 0 <= jj < i + 1 && self.planets@[jj].neighbors@.contains(x)) && !knows(self.planets@, x) by {
                    if exists|jj: int| 0 <= jj < i + 1 && self.planets@[jj].neighbors@.contains(x) {
                        let jj = choose|jj: int| 0 <= jj < i + 1 && self.planets@[jj].neighbors@.contains(x);
                        if jj < i {
                            assert(exists|jj: int| 0 <= jj < i && self.planets@[jj].neighbors@.contains(x));
                        }
                    }
                }
            }
            i = i + 1;
        }
        r
    }

    /// Planets that the first entries of the `explored` planets list as
    /// neighbours, minus the explored planets themselves, each once.
    pub fn get_unexplored_from_hash(&self, explored_planets: &Vec<u32>) -> (r: Vec<u32>)
        ensures
            r@.no_duplicates(),
            forall|v: u32| r@.contains(v) <==> (exists|e: u32| explored_planets@.contains(e) && #[trigger] first_lists(self.planets@, e, v)) && !explored_planets@.contains(v),
    {
        let mut r: Vec<u32> = Vec::new();
        let mut i: usize = 0;
        while i < explored_planets.len()
            invariant
                i <= explored_planets@.len(),
                r@.no_duplicates(),
                forall|v: u32| r@.contains(v) <==> (exists|k: int| 0 <= k < i && #[trigger] first_lists(self.planets@, explored_planets@[k], v)) && !explored_planets@.contains(v),
            decreases explored_planets@.len() - i,
        {
            let e = explored_planets[i];
            if let Some(pi) = self.find_planet(e) {
                let nbrs = &self.planets[pi].neighbors;
                proof {
                    assert forall|v: u32| #[trigger] first_lists(self.planets@, e, v) <==> nbrs@.contains(v) by {
                        if first_lists(self.planets@, e, v) {
                            let q = choose|q: int| is_first_planet(self.planets@, e, q) && self.planets@[q].neighbors@.contains(v);
                            assert(q == pi);
                        }
                    }
                }
                let mut j: usize = 0;
                while j < nbrs.len()
                    invariant
                        i < explored_planets@.len(),
                        e == explored_planets@[i as int],
                        forall|v: u32| #[trigger] first_lists(self.planets@, e, v) <==> nbrs@.contains(v),
                        j <= nbrs@.len(),
                        r@.no_duplicates(),
                        forall|v: u32| r@.contains(v) <==> ((exists|k: int| 0 <= k < i && #[trigger] first_lists(self.planets@, explored_planets@[k], v)) || prefix_contains(nbrs@, j as int, v)) && !explored_planets@.contains(v),
                    decreases nbrs@.len() - j,
                {
                    let v = nbrs[j];
                    let ghost before = r@;
                    let seen = vec_contains(explored_planets, v);
                    if !seen {
                        insert_unique(&mut r, v);
                        proof {
                            assert forall|x: u32| r@.contains(x) <==> before.contains(x) || x == v by {
                                assert(r@.contains(x) <==> r@.to_set().contains(x));
                                assert(before.contains(x) <==> before.to_set().contains(x));
                            }
                        }
                    }
                    proof {
                        assert(v == nbrs@[j as int]);
                        assert(!seen ==> forall|x: u32| r@.contains(x) <==> before.contains(x) || x == v);
                        assert(seen ==> r@ == before && explored_planets@.contains(v));
                        assert forall|x: u32| r@.contains(x) <==> ((exists|k: int| 0 <= k < i && #[trigger] first_lists(self.planets@, explored_planets@[k], x)) || prefix_contains(nbrs@, j + 1, x)) && !explored_planets@.contains(x) by {
                            lemma_prefix_contains_step(nbrs@, j as int, x);
                            assert(before.contains(x) <==> ((exists|k: int| 0 <= k < i && #[trigger] first_lists(self.planets@, explored_planets@[k], x)) || prefix_contains(nbrs@, j as int, x)) && !explored_planets@.contains(x));
                        }
                    }
                    j = j + 1;
                }
                proof {
                    assert forall|x: u32| prefix_contains(nbrs@, nbrs@.len() as int, x) <==> nbrs@.contains(x) by {}
                }
            } else {
                proof {
                    assert forall|v: u32| !first_lists(self.planets@, e, v) by {
                        if first_lists(self.planets@, e, v) {
                            let q = choose|q: int| is_first_planet(self.planets@, e, q) && self.planets@[q].neighbors@.contains(v);
                            assert(knows(self.planets@, e));
                        }
                    }
                }
            }
            proof {
                assert forall|x: u32| r@.contains(x) <==> (exists|k: int| 0 <= k < i + 1 && #[trigger] first_lists(self.planets@, explored_planets@[k], x)) && !explored_planets@.contains(x) by {
                    assert(explored_planets@[i as int] == e);
                    if first_lists(self.planets@, e, x) {
                        assert(first_lists(self.planets@, explored_planets@[i as int], x));
                    }
                    if exists|k: int| 0 <= k < i + 1 && #[trigger] first_lists(self.planets@, explored_planets@[k], x) {
                        let k = choose|k: int| 0 <= k < i + 1 && #[trigger] first_lists(self.planets@, explored_planets@[k], x);
                        if k < i {
                            assert(exists|k: int| 0 <= k < i && #[trigger] first_lists(self.planets@, explored_planets@[k], x));
                        }
                    }
                    if (exists|k: int| 0 <= k < i && #[trigger] first_lists(self.planets@, explored_planets@[k], x)) {
                        let k = choose|k: int| 0 <= k < i && #[trigger] first_lists(self.planets@, explored_planets@[k], x);
                        assert(0 <= k < i + 1 && first_lists(self.planets@, explored_planets@[k], x));
                    }
                }
            }
            i = i + 1;
        }
        proof {
            assert forall|v: u32| r@.contains(v) <==> (exists|e: u32| explored_planets@.contains(e) && #[trigger] first_lists(self.planets@, e, v)) && !explored_planets@.contains(v) by {
                if exists|e: u32| explored_planets@.contains(e) && #[trigger] first_lists(self.planets@, e, v) {
                    let e = choose|e: u32| explored_planets@.contains(e) && #[trigger] first_lists(self.planets@, e, v);
                    let k = choose|k: int| 0 <= k < explored_planets@.len() && explored_planets@[k] == e;
                    assert(first_lists(self.planets@, explored_planets@[k], v));
                }
            }
        }
        r
    }

    pub fn update_state(&mut self, state: StrategyState)
        ensures
            final(self).current_state == state,
            final(self).current_target_planet == old(self).current_target_planet,
            final(self).planets == old(self).planets,
    {
        self.current_state = state;
    }

    pub fn get_current_state(&self) -> (r: &StrategyState)
        ensures
            *r == self.current_state,
    {
        &self.current_state
    }

    pub fn get_target_planet(&self) -> (r: Option<u32>)
        ensures
            r == self.current_target_planet,
    {
        self.current_target_planet
    }

    pub fn set_destination(&mut self, planet: Option<u32>)
        ensures
            final(self).current_target_planet == planet,
            final(self).current_state == old(self).current_state,
            final(self).planets == old(self).planets,
    {
        self.current_target_planet = planet;
    }

    /// The neighbours of a known planet.
    pub fn get_neighbors(&self, planet: u32) -> (r: Option<&Vec<u32>>)
        ensures
            match r {
                Some(n) => exists|i: int| is_first_planet(self.planets@, planet, i) && n@ == self.planets@[i].neighbors@,
                None => !knows(self.planets@, planet),
            },
    {
        match self.find_planet(planet) {
            Some(i) => Some(&self.planets[i].neighbors),
            None => None,
        }
    }

    /// Whether a known planet generates (basic) or combines (complex) a resource.
    pub fn can_planet_produce(&self, planet: u32, resource: ResourceType) -> (r: bool)
        ensures
            r == produces(self.planets@, planet, resource),
    {
        match self.find_planet(planet) {
            None => false,
            Some(i) => {
                let p = &self.planets[i];
                match resource {
                    ResourceType::Basic(b) => {
                        let mut k: usize = 0;
                        while k < p.resource_type.len()
                            invariant
                                resource == ResourceType::Basic(b),
                                is_first_planet(self.planets@, planet, i as int),
                                *p == self.planets@[i as int],
                                k <= p.resource_type@.len(),
                                forall|j: int| 0 <= j < k ==> p.resource_type@[j] != b,
                            decreases p.resource_type@.len() - k,
                        {
                            if p.resource_type[k] == b {
                                proof {
                                    assert(p.resource_type@[k as int] == b);
                                    assert(p.resource_type@.contains(b));
                                    assert(is_first_planet(self.planets@, planet, i as int));
                                    assert(self.planets@[i as int].resource_type@.contains(b));
                                    assert(produces(self.planets@, planet, resource));
                                }
                                return true;
                            }
                            k = k + 1;
                        }
                        false
                    },
                    ResourceType::Complex(c) => {
                        let mut k: usize = 0;
                        while k < p.combinations.len()
                            invariant
                                resource == ResourceType::Complex(c),
                                is_first_planet(self.planets@, planet, i as int),
                                *p == self.planets@[i as int],
                                k <= p.combinations@.len(),
                                forall|j: int| 0 <= j < k ==> p.combinations@[j] != c,
                            decreases p.combinations@.len() - k,
                        {
                            if p.combinations[k] == c {
                                proof {
                                    assert(p.combinations@[k as int] == c);
                                    assert(p.combinations@.contains(c));
                                    assert(is_first_planet(self.planets@, planet, i as int));
                                    assert(self.planets@[i as int].combinations@.contains(c));
                                    assert(produces(self.planets@, planet, resource));
                                }
                                return true;
                            }
                            k = k + 1;
                        }
                        false
                    },
                }
            },
        }
    }

    /// The known galaxy as a map from planets to neighbours.
    pub fn planet_map(&self) -> (r: Vec<(u32, Vec<u32>)>)
        ensures
            adjacency_view(r@) == planet_graph(self.planets@),
    {
        let mut r: Vec<(u32, Vec<u32>)> = Vec::new();
        let mut i: usize = 0;
        while i < self.planets.len()
            invariant
                i <= self.planets@.len(),
                r@.len() == i,
                adjacency_view(r@) == planet_graph(self.planets@).subrange(0, i as int),
            decreases self.planets@.len() - i,
        {
            let entry = (self.planets[i].id, copy_ids(&self.planets[i].neighbors));
            let ghost before = r@;
            r.push(entry);
            proof {
                assert forall|k: int| 0 <= k < i + 1 implies #[trigger] adjacency_view(r@)[k] == planet_graph(self.planets@).subrange(0, i + 1)[k] by {
                    if k < i {
                        assert(r@[k] == before[k]);
                        assert(adjacency_view(before)[k] == planet_graph(self.planets@).subrange(0, i as int)[k]);
                    }
                }
                assert(adjacency_view(r@) =~= planet_graph(self.planets@).subrange(0, i + 1));
            }
            i = i + 1;
        }
        proof {
            assert(adjacency_view(r@) =~= planet_graph(self.planets@));
        }
        r
    }

    /// Next planet to travel to on a shortest path towards the destination:
    /// the starting planet itself when there is no destination, when the
    /// destination is the starting planet, or when no known path leads to it.
    pub fn get_next_hop(&self, starting_planet: u32) -> (r: u32)
        ensures
            is_next_hop(self.planets@, self.current_target_planet, starting_planet, r),
    {
        let target = match self.current_target_planet {
            Some(id) => id,
            None => return starting_planet,
        };
        if starting_planet == target {
            return starting_planet;
        }
        let map = self.planet_map();
        let mut targets: Vec<u32> = Vec::new();
        targets.push(target);
        proof {
            assert(targets@ =~= seq![target]);
        }
        match first_hop_towards(&map, starting_planet, &targets) {
            Some(h) => {
                proof {
                    let d = choose|d: int| #[trigger] is_first_hop(adjacency_view(map@), starting_planet, targets@, h, d);
                    assert(is_first_hop(planet_graph(self.planets@), starting_planet, seq![target], h, d));
                }
                h
            },
            None => starting_planet,
        }
    }
}

} // verus!
