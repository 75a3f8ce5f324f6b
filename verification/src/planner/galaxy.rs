//! The planning explorers' picture of the galaxy: the connections between
//! planets and what each planet generates, combines and has in charged
//! cells, as seen on the last tour.

use vstd::prelude::*;
use crate::idmap::IdMap;
use crate::resources::{BasicResourceType, ComplexResourceType};

verus! {

/// What is known about one planet. The lists are sets: each kind once.
pub struct PlanetKnowledge {
    pub basic_resources: Vec<BasicResourceType>,
    pub complex_resources: Vec<ComplexResourceType>,
    pub n_charged_cells: u32,
}

impl PlanetKnowledge {
    /// Nothing known yet.
    pub fn new() -> (p: Self)
        ensures
            p.basic_resources@.len() == 0,
            p.complex_resources@.len() == 0,
            p.n_charged_cells == 0,
    {
        PlanetKnowledge { basic_resources: Vec::new(), complex_resources: Vec::new(), n_charged_cells: 0 }
    }
}

/// The connections between planets and what is known about each.
pub struct GalaxyKnowledge {
    pub connections: IdMap<Vec<u32>>,
    pub planets_knowledge: IdMap<PlanetKnowledge>,
    pub max_charged_cells_per_planet: u32,
}

/// The number of the first `n` ids of `ids` that `a` knows, `b` knows too,
/// and whose charged cells went up (when `up`) or down from `a` to `b`.
pub open spec fn count_changed(ids: Seq<u32>, a: Map<u32, PlanetKnowledge>, b: Map<u32, PlanetKnowledge>, up: bool, n: int) -> nat
    decreases n,
{
    if n <= 0 {
        0
    } else {
        count_changed(ids, a, b, up, n - 1) + if b.contains_key(ids[n - 1]) && (if up {
            b[ids[n - 1]].n_charged_cells > a[ids[n - 1]].n_charged_cells
        } else {
            b[ids[n - 1]].n_charged_cells < a[ids[n - 1]].n_charged_cells
        }) {
            1nat
        } else {
            0nat
        }
    }
}

proof fn lemma_count_changed_bound(ids: Seq<u32>, a: Map<u32, PlanetKnowledge>, b: Map<u32, PlanetKnowledge>, up: bool, n: int)
    requires
        0 <= n,
    ensures
        count_changed(ids, a, b, up, n) <= n,
    decreases n,
{
    if n > 0 {
        lemma_count_changed_bound(ids, a, b, up, n - 1);
    }
}

/// Whether a list of basic kinds holds `x`.
fn has_basic_kind(v: &Vec<BasicResourceType>, x: BasicResourceType) -> (r: bool)
    ensures
        r == v@.contains(x),
{
    let mut i: usize = 0;
    while i < v.len()
        invariant
            i <= v@.len(),
            forall|j: int| 0 <= j < i ==> v@[j] != x,
        decreases v@.len() - i,
    {
        if v[i] == x {
            assert(v@[i as int] == x);
            return true;
        }
        i = i + 1;
    }
    false
}

/// Whether a list of complex kinds holds `x`.
fn has_complex_kind(v: &Vec<ComplexResourceType>, x: ComplexResourceType) -> (r: bool)
    ensures
        r == v@.contains(x),
{
    let mut i: usize = 0;
    while i < v.len()
        invariant
            i <= v@.len(),
            forall|j: int| 0 <= j < i ==> v@[j] != x,
        decreases v@.len() - i,
    {
        if v[i] == x {
            assert(v@[i as int] == x);
            return true;
        }
        i = i + 1;
    }
    false
}

impl GalaxyKnowledge {
    /// The maps are well formed, every neighbour list and every resource
    /// list holds each element once, and no planet has more charged cells
    /// than the recorded maximum.
    pub open spec fn wf(&self) -> bool {
        &&& self.connections.wf()
        &&& self.planets_knowledge.wf()
        &&& forall|k: u32| #[trigger] self.connections@.contains_key(k) ==> self.connections@[k]@.no_duplicates()
        &&& forall|k: u32| #[trigger] self.planets_knowledge@.contains_key(k) ==> {
            &&& self.planets_knowledge@[k].basic_resources@.no_duplicates()
            &&& self.planets_knowledge@[k].complex_resources@.no_duplicates()
            &&& self.planets_knowledge@[k].n_charged_cells <= self.max_charged_cells_per_planet
        }
    }

    /// Nothing known.
    pub fn new() -> (g: Self)
        ensures
            g.wf(),
            g.connections@ == Map::<u32, Vec<u32>>::empty(),
            g.planets_knowledge@ == Map::<u32, PlanetKnowledge>::empty(),
            g.max_charged_cells_per_planet == 0,
    {
        GalaxyKnowledge { connections: IdMap::new(), planets_knowledge: IdMap::new(), max_charged_cells_per_planet: 0 }
    }

    /// Adds a planet with no connection and nothing known about it
    /// (forgetting what was known when it was there already).
    pub fn add_planet(&mut self, id: u32)
        requires
            old(self).wf(),
        ensures
            final(self).wf(),
            final(self).connections@ == old(self).connections@.insert(id, final(self).connections@[id]),
            final(self).connections@[id]@.len() == 0,
            final(self).planets_knowledge@ == old(self).planets_knowledge@.insert(id, final(self).planets_knowledge@[id]),
            final(self).planets_knowledge@[id].basic_resources@.len() == 0,
            final(self).planets_knowledge@[id].complex_resources@.len() == 0,
            final(self).planets_knowledge@[id].n_charged_cells == 0,
            final(self).max_charged_cells_per_planet == old(self).max_charged_cells_per_planet,
    {
        self.connections.insert(id, Vec::new());
        self.planets_knowledge.insert(id, PlanetKnowledge::new());
    }

    /// Adds `b` to the neighbours of `a`, when `a` is known.
    fn connect_one_way(&mut self, a: u32, b: u32)
        requires
            old(self).wf(),
        ensures
            final(self).wf(),
            final(self).planets_knowledge == old(self).planets_knowledge,
            final(self).max_charged_cells_per_planet == old(self).max_charged_cells_per_planet,
            final(self).connections@.dom() == old(self).connections@.dom(),
            forall|k: u32| #[trigger] final(self).connections@.contains_key(k) && k != a ==> final(self).connections@[k] == old(self).connections@[k],
            old(self).connections@.contains_key(a) ==> final(self).connections@[a]@.to_set() == old(self).connections@[a]@.to_set().insert(b),
    {
        match self.connections.replace(a, Vec::new()) {
            None => {},
            Some(mut v) => {
                let ghost v0 = v@;
                if !crate::graph::vec_contains(&v, b) {
                    v.push(b);
                    proof {
                        assert(v@.no_duplicates()) by {
                            assert forall|x: int, y: int| 0 <= x < y < v@.len() implies v@[x] != v@[y] by {
                                if y == v0.len() {
                                    assert(v0[x] == v@[x]);
                                }
                            }
                        }
                        assert(v@.to_set() =~= v0.to_set().insert(b)) by {
                            assert forall|x: u32| v@.to_set().contains(x) <==> v0.to_set().insert(b).contains(x) by {
                                if v@.contains(x) {
                                    let j = choose|j: int| 0 <= j < v@.len() && v@[j] == x;
                                    if j < v0.len() {
                                        assert(v0[j] == x);
                                    }
                                }
                                if v0.contains(x) {
                                    let j = choose|j: int| 0 <= j < v0.len() && v0[j] == x;
                                    assert(v@[j] == x);
                                }
                                if x == b {
                                    assert(v@[v0.len() as int] == b);
                                }
                            }
                        }
                    }
                } else {
                    proof {
                        assert(v@.to_set() =~= v0.to_set().insert(b));
                    }
                }
                self.connections.insert(a, v);
                proof {
                    assert(self.connections@ =~= old(self).connections@.insert(a, v));
                }
            },
        }
    }

    /// Connects two known planets both ways; an unknown one gets no entry.
    pub fn add_planets_connection(&mut self, a: u32, b: u32)
        requires
            old(self).wf(),
        ensures
            final(self).wf(),
            final(self).planets_knowledge == old(self).planets_knowledge,
            final(self).max_charged_cells_per_planet == old(self).max_charged_cells_per_planet,
            final(self).connections@.dom() == old(self).connections@.dom(),
            forall|k: u32| #[trigger] final(self).connections@.contains_key(k) ==> final(self).connections@[k]@.to_set()
                == old(self).connections@[k]@.to_set().union(
                    if k == a && k == b { set![a, b] } else if k == a { set![b] } else if k == b { set![a] } else { Set::empty() },
                ),
    {
        self.connect_one_way(a, b);
        let ghost mid = self.connections@;
        self.connect_one_way(b, a);
        proof {
            assert forall|k: u32| #[trigger] self.connections@.contains_key(k) implies self.connections@[k]@.to_set()
                == old(self).connections@[k]@.to_set().union(
                    if k == a && k == b { set![a, b] } else if k == a { set![b] } else if k == b { set![a] } else { Set::empty() },
                ) by {
                if k == a && k == b {
                    assert(self.connections@[k]@.to_set() =~= old(self).connections@[k]@.to_set().union(set![a, b]));
                } else if k == a {
                    assert(self.connections@[k]@.to_set() =~= old(self).connections@[k]@.to_set().union(set![b]));
                } else if k == b {
                    assert(self.connections@[k]@.to_set() =~= old(self).connections@[k]@.to_set().union(set![a]));
                } else {
                    assert(self.connections@[k]@.to_set() =~= old(self).connections@[k]@.to_set().union(Set::empty()));
                }
            }
        }
    }

    /// Records the basic resources a known planet generates.
    pub fn set_planet_basic_resources(&mut self, id: u32, res: Vec<BasicResourceType>)
        requires
            old(self).wf(),
            res@.no_duplicates(),
        ensures
            final(self).wf(),
            final(self).connections == old(self).connections,
            final(self).max_charged_cells_per_planet == old(self).max_charged_cells_per_planet,
            !old(self).planets_knowledge@.contains_key(id) ==> final(self).planets_knowledge@ == old(self).planets_knowledge@,
            old(self).planets_knowledge@.contains_key(id) ==> final(self).planets_knowledge@ == old(self).planets_knowledge@.insert(
                id,
                PlanetKnowledge { basic_resources: res, ..old(self).planets_knowledge@[id] },
            ),
    {
        match self.planets_knowledge.replace(id, PlanetKnowledge::new()) {
            None => {},
            Some(mut p) => {
                p.basic_resources = res;
                self.planets_knowledge.insert(id, p);
                proof {
                    assert(self.planets_knowledge@ =~= old(self).planets_knowledge@.insert(id, p));
                }
            },
        }
    }

    /// Records the complex resources a known planet combines.
    pub fn set_planet_combination_rules(&mut self, id: u32, rules: Vec<ComplexResourceType>)
        requires
            old(self).wf(),
            rules@.no_duplicates(),
        ensures
            final(self).wf(),
            final(self).connections == old(self).connections,
            final(self).max_charged_cells_per_planet == old(self).max_charged_cells_per_planet,
            !old(self).planets_knowledge@.contains_key(id) ==> final(self).planets_knowledge@ == old(self).planets_knowledge@,
            old(self).planets_knowledge@.contains_key(id) ==> final(self).planets_knowledge@ == old(self).planets_knowledge@.insert(
                id,
                PlanetKnowledge { complex_resources: rules, ..old(self).planets_knowledge@[id] },
            ),
    {
        match self.planets_knowledge.replace(id, PlanetKnowledge::new()) {
            None => {},
            Some(mut p) => {
                p.complex_resources = rules;
                self.planets_knowledge.insert(id, p);
                proof {
                    assert(self.planets_knowledge@ =~= old(self).planets_knowledge@.insert(id, p));
                }
            },
        }
    }

    /// Records the charged cells of a known planet, raising the recorded
    /// maximum when needed.
    pub fn set_n_charged_cells(&mut self, id: u32, n: u32)
        requires
            old(self).wf(),
        ensures
            final(self).wf(),
            final(self).connections == old(self).connections,
            !old(self).planets_knowledge@.contains_key(id) ==> final(self).planets_knowledge@ == old(self).planets_knowledge@
                && final(self).max_charged_cells_per_planet == old(self).max_charged_cells_per_planet,
            old(self).planets_knowledge@.contains_key(id) ==> {
                &&& final(self).planets_knowledge@ == old(self).planets_knowledge@.insert(
                    id,
                    PlanetKnowledge { n_charged_cells: n, ..old(self).planets_knowledge@[id] },
                )
                &&& final(self).max_charged_cells_per_planet == if n > old(self).max_charged_cells_per_planet {
                    n
                } else {
                    old(self).max_charged_cells_per_planet
                }
            },
    {
        match self.planets_knowledge.replace(id, PlanetKnowledge::new()) {
            None => {},
            Some(mut p) => {
                p.n_charged_cells = n;
                self.planets_knowledge.insert(id, p);
                if n > self.max_charged_cells_per_planet {
                    self.max_charged_cells_per_planet = n;
                }
                proof {
                    assert(self.planets_knowledge@ =~= old(self).planets_knowledge@.insert(id, p));
                }
            },
        }
    }

    /// Whether a planet is part of the picture.
    pub fn has_planet(&self, id: u32) -> (r: bool)
        requires
            self.wf(),
        ensures
            r == self.connections@.contains_key(id),
    {
        self.connections.contains_key(id)
    }

    fn count_comparison_predicate(&self, b: &GalaxyKnowledge, up: bool) -> (count: u32)
        requires
            self.wf(),
            b.wf(),
            self.planets_knowledge.key_seq().len() <= u32::MAX,
        ensures
            count == count_changed(self.planets_knowledge.key_seq(), self.planets_knowledge@, b.planets_knowledge@, up, self.planets_knowledge.key_seq().len() as int),
    {
        let ids = self.planets_knowledge.keys();
        let mut count: u32 = 0;
        let mut i: usize = 0;
        while i < ids.len()
            invariant
                self.wf(),
                b.wf(),
                ids@ == self.planets_knowledge.key_seq(),
                forall|k: u32| #[trigger] self.planets_knowledge@.contains_key(k) <==> ids@.contains(k),
                ids@.len() <= u32::MAX,
                i <= ids@.len(),
                count == count_changed(ids@, self.planets_knowledge@, b.planets_knowledge@, up, i as int),
            decreases ids@.len() - i,
        {
            proof {
                lemma_count_changed_bound(ids@, self.planets_knowledge@, b.planets_knowledge@, up, i + 1);
            }
            let id = ids[i];
            assert(self.planets_knowledge@.contains_key(id)) by {
                assert(ids@[i as int] == id);
                assert(ids@.contains(id));
            }
            let mine = self.planets_knowledge.get(id).unwrap();
            match b.planets_knowledge.get(id) {
                Some(other) => {
                    let changed = if up {
                        other.n_charged_cells > mine.n_charged_cells
                    } else {
                        other.n_charged_cells < mine.n_charged_cells
                    };
                    if changed {
                        count = count + 1;
                    }
                },
                None => {},
            }
            i = i + 1;
        }
        count
    }

    /// A lower bound on the sunrays received between this picture and
    /// `new_state`: the planets known to both whose charged cells went up.
    pub fn estimate_sunrays_received(&self, new_state: &GalaxyKnowledge) -> (count: u32)
        requires
            self.wf(),
            new_state.wf(),
            self.planets_knowledge.key_seq().len() <= u32::MAX,
        ensures
            count == count_changed(self.planets_knowledge.key_seq(), self.planets_knowledge@, new_state.planets_knowledge@, true, self.planets_knowledge.key_seq().len() as int),
    {
        self.count_comparison_predicate(new_state, true)
    }

    /// A lower bound on the asteroids received between this picture and
    /// `new_state`: the planets known to both whose charged cells went down.
    pub fn estimate_asteroids_received(&self, new_state: &GalaxyKnowledge) -> (count: u32)
        requires
            self.wf(),
            new_state.wf(),
            self.planets_knowledge.key_seq().len() <= u32::MAX,
        ensures
            count == count_changed(self.planets_knowledge.key_seq(), self.planets_knowledge@, new_state.planets_knowledge@, false, self.planets_knowledge.key_seq().len() as int),
    {
        self.count_comparison_predicate(new_state, false)
    }

    /// The number of planets in the picture.
    pub fn get_n_planets(&self) -> (n: usize)
        requires
            self.wf(),
        ensures
            n == self.connections@.dom().len(),
    {
        self.connections.len()
    }

    /// The neighbours of a planet in the picture.
    pub fn get_planet_neighbours(&self, planet_id: u32) -> (r: Option<&Vec<u32>>)
        requires
            self.wf(),
        ensures
            match r {
                Some(v) => self.connections@.contains_key(planet_id) && *v == self.connections@[planet_id],
                None => !self.connections@.contains_key(planet_id),
            },
    {
        self.connections.get(planet_id)
    }

    /// The planets in the picture, each once, in the order they were added.
    pub fn get_planet_ids(&self) -> (r: Vec<u32>)
        requires
            self.wf(),
        ensures
            r@ == self.connections.key_seq(),
            r@.no_duplicates(),
            forall|k: u32| #[trigger] r@.contains(k) <==> self.connections@.contains_key(k),
    {
        self.connections.keys()
    }

    /// Whether a known planet may hold a rocket: it generates exactly one
    /// basic resource.
    pub fn can_have_rocket(&self, id: u32) -> (r: bool)
        requires
            self.wf(),
        ensures
            r == (self.planets_knowledge@.contains_key(id) && self.planets_knowledge@[id].basic_resources@.len() == 1),
    {
        match self.planets_knowledge.get(id) {
            Some(p) => p.basic_resources.len() == 1,
            None => false,
        }
    }

    /// Whether a known planet may have unbounded cells: it combines nothing.
    pub fn has_planet_cell_unbounded(&self, id: u32) -> (r: bool)
        requires
            self.wf(),
        ensures
            r == (self.planets_knowledge@.contains_key(id) && self.planets_knowledge@[id].complex_resources@.len() == 0),
    {
        match self.planets_knowledge.get(id) {
            Some(p) => p.complex_resources.len() == 0,
            None => false,
        }
    }

    /// Whether a known planet generates a basic resource.
    pub fn produces_basic_resource(&self, id: u32, res: BasicResourceType) -> (r: bool)
        requires
            self.wf(),
        ensures
            r == (self.planets_knowledge@.contains_key(id) && self.planets_knowledge@[id].basic_resources@.contains(res)),
    {
        match self.planets_knowledge.get(id) {
            Some(p) => has_basic_kind(&p.basic_resources, res),
            None => false,
        }
    }

    /// Whether a known planet combines a complex resource.
    pub fn supports_combination_rule(&self, id: u32, rule: ComplexResourceType) -> (r: bool)
        requires
            self.wf(),
        ensures
            r == (self.planets_knowledge@.contains_key(id) && self.planets_knowledge@[id].complex_resources@.contains(rule)),
    {
        match self.planets_knowledge.get(id) {
            Some(p) => has_complex_kind(&p.complex_resources, rule),
            None => false,
        }
    }

    /// The charged cells of a planet, zero when unknown.
    pub fn get_n_charged_cells(&self, id: u32) -> (n: u32)
        requires
            self.wf(),
        ensures
            n == (if self.planets_knowledge@.contains_key(id) { self.planets_knowledge@[id].n_charged_cells } else { 0 }),
    {
        match self.planets_knowledge.get(id) {
            Some(p) => p.n_charged_cells,
            None => 0,
        }
    }
}

} // verus!
