//! What the cetto explorer knows: the connections between planets it has
//! seen, what it learned about each planet, and how many of each resource
//! it still has to make.

use vstd::prelude::*;
use crate::resources::{
    lemma_positions, resource_index, resource_pos, BasicResourceType, ComplexResourceType, ResourceType, N_RESOURCES,
};

verus! {

/// What is known about one planet.
pub struct PlanetInfo {
    pub basic_type: Vec<BasicResourceType>,
    pub complex_type: Option<ComplexResourceType>,
    pub energy_available: i32,
    pub is_destroyed: bool,
}

impl PlanetInfo {
    /// A planet not (known to be) destroyed.
    pub fn new(basic_type: Vec<BasicResourceType>, complex_type: Option<ComplexResourceType>, energy_available: i32) -> (p: Self)
        ensures
            p == (PlanetInfo { basic_type, complex_type, energy_available, is_destroyed: false }),
    {
        PlanetInfo { basic_type, complex_type, energy_available, is_destroyed: false }
    }

    /// Records the energy now available.
    pub fn update(&mut self, energy: i32)
        ensures
            *final(self) == (PlanetInfo { energy_available: energy, ..*old(self) }),
    {
        self.energy_available = energy;
    }
}

/// The connections between planets: for each planet seen, the planets it
/// is connected to.
pub struct GalaxyInfo {
    connections: Vec<(u32, Vec<u32>)>,
}

/// Index `i` holds the entry of planet `a`.
pub open spec fn entry_of(c: Seq<(u32, Vec<u32>)>, a: u32, i: int) -> bool {
    0 <= i < c.len() && c[i].0 == a
}

impl GalaxyInfo {
    /// Each planet has one entry and each neighbour list holds a planet once.
    pub closed spec fn wf(&self) -> bool {
        &&& forall|i: int, j: int| 0 <= i < j < self.connections@.len() ==> self.connections@[i].0 != self.connections@[j].0
        &&& forall|i: int| 0 <= i < self.connections@.len() ==> (#[trigger] self.connections@[i]).1@.no_duplicates()
    }

    /// The planets that have an entry.
    pub closed spec fn keys(&self) -> Set<u32> {
        Set::new(|a: u32| exists|i: int| entry_of(self.connections@, a, i))
    }

    /// The connections, as ordered pairs.
    pub closed spec fn edges(&self) -> Set<(u32, u32)> {
        Set::new(|e: (u32, u32)| exists|i: int| entry_of(self.connections@, e.0, i) && self.connections@[i].1@.contains(e.1))
    }

    /// No planet, no connection.
    pub fn new() -> (g: Self)
        ensures
            g.wf(),
            g.keys() == Set::<u32>::empty(),
            g.edges() == Set::<(u32, u32)>::empty(),
    {
        let g = GalaxyInfo { connections: Vec::new() };
        proof {
            assert(g.keys() =~= Set::<u32>::empty());
            assert(g.edges() =~= Set::<(u32, u32)>::empty());
        }
        g
    }

    fn find(&self, a: u32) -> (r: Option<usize>)
        ensures
            match r {
                Some(i) => entry_of(self.connections@, a, i as int),
                None => forall|i: int| 0 <= i < self.connections@.len() ==> self.connections@[i].0 != a,
            },
    {
        let mut i: usize = 0;
        while i < self.connections.len()
            invariant
                i <= self.connections@.len(),
                forall|j: int| 0 <= j < i ==> self.connections@[j].0 != a,
            decreases self.connections@.len() - i,
        {
            if self.connections[i].0 == a {
                return Some(i);
            }
            i = i + 1;
        }
        None
    }

    /// Adds `b` to the neighbours of `a`, giving `a` an entry when it has
    /// none.
    fn connect(&mut self, a: u32, b: u32)
        requires
            old(self).wf(),
        ensures
            final(self).wf(),
            final(self).keys() == old(self).keys().insert(a),
            final(self).edges() == old(self).edges().insert((a, b)),
    {
        let ghost c0 = self.connections@;
        match self.find(a) {
            None => {
                let mut v: Vec<u32> = Vec::new();
                v.push(b);
                proof {
                    assert(v@ =~= seq![b]);
                    assert(v@.no_duplicates());
                }
                self.connections.push((a, v));
                proof {
                    let c1 = self.connections@;
                    assert forall|i: int| 0 <= i < c1.len() implies (#[trigger] c1[i]).1@.no_duplicates() by {
                        if i < c0.len() {
                            assert(c1[i] == c0[i]);
                        }
                    }
                    assert forall|x: u32| self.keys().contains(x) <==> old(self).keys().insert(a).contains(x) by {
                        if old(self).keys().contains(x) {
                            let i = choose|i: int| entry_of(c0, x, i);
                            assert(entry_of(c1, x, i));
                        }
                        if x == a {
                            assert(entry_of(c1, a, c0.len() as int));
                        }
                        if self.keys().contains(x) && x != a {
                            let i = choose|i: int| entry_of(c1, x, i);
                            assert(entry_of(c0, x, i));
                        }
                    }
                    assert(self.keys() =~= old(self).keys().insert(a));
                    assert(c1[c0.len() as int].1@[0] == b);
                    assert(entry_of(c1, a, c0.len() as int) && c1[c0.len() as int].1@.contains(b));
                    let ghost ab: (u32, u32) = (a, b);
                    assert(ab.0 == a && ab.1 == b);
                    assert(entry_of(c1, ab.0, c0.len() as int) && c1[c0.len() as int].1@.contains(ab.1));
                    assert(self.edges().contains(ab));
                    assert forall|e: (u32, u32)| self.edges().contains(e) <==> old(self).edges().insert((a, b)).contains(e) by {
                        if old(self).edges().contains(e) {
                            let i = choose|i: int| entry_of(c0, e.0, i) && c0[i].1@.contains(e.1);
                            assert(entry_of(c1, e.0, i) && c1[i].1@.contains(e.1));
                        }
                        if e == (a, b) {
                            assert(c1[c0.len() as int].1@[0] == b);
                            assert(entry_of(c1, a, c0.len() as int) && c1[c0.len() as int].1@.contains(b));
                        }
                        if self.edges().contains(e) && e != (a, b) {
                            let i = choose|i: int| entry_of(c1, e.0, i) && c1[i].1@.contains(e.1);
                            if i == c0.len() {
                                assert(c1[i].1@ == seq![b]);
                                assert(e.0 == a);
                                assert(e.1 == b);
                            }
                            assert(entry_of(c0, e.0, i) && c0[i].1@.contains(e.1));
                        }
                    }
                    assert(self.edges() =~= old(self).edges().insert((a, b)));
                }
            },
            Some(i) => {
                let (id, mut v) = self.connections.remove(i);
                let ghost v0 = v@;
                let mut present = false;
                let mut k: usize = 0;
                while k < v.len()
                    invariant
                        v@ == v0,
                        k <= v@.len(),
                        present == (exists|j: int| 0 <= j < k && v@[j] == b),
                    decreases v@.len() - k,
                {
                    if v[k] == b {
                        present = true;
                    }
                    k = k + 1;
                }
                if !present {
                    v.push(b);
                }
                proof {
                    assert(c0[i as int].1@ == v0);
                    assert(v@.no_duplicates()) by {
                        if !present {
                            assert forall|x: int, y: int| 0 <= x < y < v@.len() implies v@[x] != v@[y] by {
                                if y == v0.len() {
                                    assert(v@[x] == v0[x]);
                                }
                            }
                        }
                    }
                    assert(v@.contains(b)) by {
                        if present {
                            let j = choose|j: int| 0 <= j < v0.len() && v0[j] == b;
                            assert(v@[j] == b);
                        } else {
                            assert(v@[v0.len() as int] == b);
                        }
                    }
                    assert(forall|x: u32| v@.contains(x) <==> v0.contains(x) || x == b) by {
                        assert forall|x: u32| v@.contains(x) implies v0.contains(x) || x == b by {
                            let j = choose|j: int| 0 <= j < v@.len() && v@[j] == x;
                            if j < v0.len() {
                                assert(v0[j] == x);
                            }
                        }
                        assert forall|x: u32| v0.contains(x) implies v@.contains(x) by {
                            let j = choose|j: int| 0 <= j < v0.len() && v0[j] == x;
                            assert(v@[j] == x);
                        }
                    }
                }
                self.connections.insert(i, (id, v));
                proof {
                    let c1 = self.connections@;
                    assert(c1 =~= c0.update(i as int, (a, v)));
                    assert forall|j: int| 0 <= j < c1.len() implies (#[trigger] c1[j]).1@.no_duplicates() by {
                        if j != i {
                            assert(c1[j] == c0[j]);
                        }
                    }
                    assert forall|x: u32| self.keys().contains(x) <==> old(self).keys().insert(a).contains(x) by {
                        if old(self).keys().contains(x) {
                            let j = choose|j: int| entry_of(c0, x, j);
                            assert(entry_of(c1, x, j));
                        }
                        if x == a {
                            assert(entry_of(c1, a, i as int));
                        }
                        if self.keys().contains(x) {
                            let j = choose|j: int| entry_of(c1, x, j);
                            assert(entry_of(c0, x, j));
                        }
                    }
                    assert(self.keys() =~= old(self).keys().insert(a));
                    let ghost ab: (u32, u32) = (a, b);
                    assert(ab.0 == a && ab.1 == b);
                    assert(c1[i as int].1@ == v@);
                    assert(entry_of(c1, ab.0, i as int) && c1[i as int].1@.contains(ab.1));
                    assert(self.edges().contains(ab));
                    assert forall|e: (u32, u32)| self.edges().contains(e) <==> old(self).edges().insert((a, b)).contains(e) by {
                        if old(self).edges().contains(e) {
                            let j = choose|j: int| entry_of(c0, e.0, j) && c0[j].1@.contains(e.1);
                            if j == i {
                                assert(v0.contains(e.1));
                                assert(v@.contains(e.1));
                            }
                            assert(entry_of(c1, e.0, j) && c1[j].1@.contains(e.1));
                        }
                        if e == (a, b) {
                            assert(c1[i as int].1@ == v@);
                            assert(entry_of(c1, a, i as int) && c1[i as int].1@.contains(b));
                        }
                        if self.edges().contains(e) {
                            let j = choose|j: int| entry_of(c1, e.0, j) && c1[j].1@.contains(e.1);
                            if j != i {
                                assert(entry_of(c0, e.0, j) && c0[j].1@.contains(e.1));
                            } else if e.1 != b {
                                assert(c1[j].1@ == v@);
                                assert(v@.contains(e.1));
                                assert(v0.contains(e.1));
                                assert(entry_of(c0, e.0, j) && c0[j].1@.contains(e.1));
                            } else {
                                assert(e == (a, b));
                            }
                        }
                    }
                    assert(self.edges() =~= old(self).edges().insert((a, b)));
                }
            },
        }
    }

    /// Removes `b` from the neighbours of `a`, if `a` has an entry.
    fn disconnect(&mut self, a: u32, b: u32)
        requires
            old(self).wf(),
        ensures
            final(self).wf(),
            final(self).keys() == old(self).keys(),
            final(self).edges() == old(self).edges().remove((a, b)),
    {
        let ghost c0 = self.connections@;
        match self.find(a) {
            None => {
                proof {
                    assert(!old(self).edges().contains((a, b)));
                    assert(self.edges() =~= old(self).edges().remove((a, b)));
                }
            },
            Some(i) => {
                let (id, mut v) = self.connections.remove(i);
                let ghost v0 = v@;
                let mut k: usize = 0;
                let mut found: Option<usize> = None;
                while k < v.len()
                    invariant
                        v@ == v0,
                        k <= v@.len(),
                        match found {
                            None => forall|j: int| 0 <= j < k ==> v@[j] != b,
                            Some(p) => p < v@.len() && v@[p as int] == b,
                        },
                    decreases v@.len() - k,
                {
                    if found.is_none() && v[k] == b {
                        found = Some(k);
                    }
                    k = k + 1;
                }
                proof {
                    assert(c0[i as int].1@ == v0);
                    assert(v0.no_duplicates());
                }
                match found {
                    Some(p) => {
                        v.remove(p);
                        proof {
                            assert(v@ =~= v0.remove(p as int));
                            assert forall|x: u32| v@.contains(x) <==> v0.contains(x) && x != b by {
                                if v@.contains(x) {
                                    let j = choose|j: int| 0 <= j < v@.len() && v@[j] == x;
                                    if j < p {
                                        assert(v0[j] == x);
                                    } else {
                                        assert(v0[j + 1] == x);
                                        assert(j + 1 != p);
                                    }
                                }
                                if v0.contains(x) && x != b {
                                    let j = choose|j: int| 0 <= j < v0.len() && v0[j] == x;
                                    assert(j != p);
                                    if j < p {
                                        assert(v@[j] == x);
                                    } else {
                                        assert(v@[j - 1] == x);
                                    }
                                }
                            }
                            assert(v@.no_duplicates()) by {
                                assert forall|x: int, y: int| 0 <= x < y < v@.len() implies v@[x] != v@[y] by {
                                    let xx = if x < p { x } else { x + 1 };
                                    let yy = if y < p { y } else { y + 1 };
                                    assert(v@[x] == v0[xx]);
                                    assert(v@[y] == v0[yy]);
                                }
                            }
                        }
                    },
                    None => {
                        proof {
                            assert forall|x: u32| v@.contains(x) <==> v0.contains(x) && x != b by {
                                if v0.contains(x) {
                                    let j = choose|j: int| 0 <= j < v0.len() && v0[j] == x;
                                    assert(v0[j] != b);
                                }
                            }
                        }
                    },
                }
                self.connections.insert(i, (id, v));
                proof {
                    let c1 = self.connections@;
                    assert(c1 =~= c0.update(i as int, (a, v)));
                    assert forall|j: int| 0 <= j < c1.len() implies (#[trigger] c1[j]).1@.no_duplicates() by {
                        if j != i {
                            assert(c1[j] == c0[j]);
                        }
                    }
                    assert forall|x: u32| self.keys().contains(x) <==> old(self).keys().contains(x) by {
                        if old(self).keys().contains(x) {
                            let j = choose|j: int| entry_of(c0, x, j);
                            assert(entry_of(c1, x, j));
                        }
                        if self.keys().contains(x) {
                            let j = choose|j: int| entry_of(c1, x, j);
                            assert(entry_of(c0, x, j));
                        }
                    }
                    assert(self.keys() =~= old(self).keys());
                    assert forall|e: (u32, u32)| self.edges().contains(e) <==> old(self).edges().remove((a, b)).contains(e) by {
                        if old(self).edges().contains(e) && e != (a, b) {
                            let j = choose|j: int| entry_of(c0, e.0, j) && c0[j].1@.contains(e.1);
                            if j == i {
                                assert(e.1 != b);
                            }
                            assert(entry_of(c1, e.0, j) && c1[j].1@.contains(e.1));
                        }
                        if self.edges().contains(e) {
                            let j = choose|j: int| entry_of(c1, e.0, j) && c1[j].1@.contains(e.1);
                            if j != i {
                                assert(entry_of(c0, e.0, j) && c0[j].1@.contains(e.1));
                                assert(e.0 != a);
                            } else {
                                assert(entry_of(c0, e.0, j) && c0[j].1@.contains(e.1));
                            }
                        }
                    }
                    assert(self.edges() =~= old(self).edges().remove((a, b)));
                }
            },
        }
    }

    /// Connects `a` and `b` both ways.
    pub fn add_bi_connection(&mut self, a: u32, b: u32)
        requires
            old(self).wf(),
        ensures
            final(self).wf(),
            final(self).keys() == old(self).keys().insert(a).insert(b),
            final(self).edges() == old(self).edges().insert((a, b)).insert((b, a)),
    {
        self.connect(a, b);
        self.connect(b, a);
    }

    /// Removes the connection between `a` and `b` both ways; used when a
    /// planet is destroyed.
    pub fn remove_bi_connection(&mut self, a: u32, b: u32)
        requires
            old(self).wf(),
        ensures
            final(self).wf(),
            final(self).keys() == old(self).keys(),
            final(self).edges() == old(self).edges().remove((a, b)).remove((b, a)),
    {
        self.disconnect(a, b);
        self.disconnect(b, a);
    }
}

/// How many of each resource the explorer still has to make.
pub struct GoalTable {
    counts: Vec<i32>,
}

impl GoalTable {
    pub closed spec fn wf(&self) -> bool {
        self.counts@.len() == N_RESOURCES
    }

    /// The count of each kind.
    pub closed spec fn goal(&self) -> Map<ResourceType, i32> {
        Map::new(|r: ResourceType| true, |r: ResourceType| self.counts@[resource_pos(r)])
    }

    /// The goal of a kind.
    pub fn get(&self, r: ResourceType) -> (n: i32)
        requires
            self.wf(),
        ensures
            n == self.goal()[r],
    {
        proof {
            lemma_positions();
        }
        self.counts[resource_index(r)]
    }

    /// Sets the goal of a kind.
    pub fn set(&mut self, r: ResourceType, n: i32)
        requires
            old(self).wf(),
        ensures
            final(self).wf(),
            final(self).goal() == old(self).goal().insert(r, n),
    {
        proof {
            lemma_positions();
        }
        self.counts.set(resource_index(r), n);
        proof {
            assert forall|x: ResourceType| x != r implies #[trigger] resource_pos(x) != resource_pos(r) by {}
            assert(self.goal() =~= old(self).goal().insert(r, n));
        }
    }

    /// A goal of zero for every kind.
    pub fn zero() -> (g: Self)
        ensures
            g.wf(),
            forall|r: ResourceType| #[trigger] g.goal()[r] == 0,
    {
        let mut counts: Vec<i32> = Vec::new();
        let mut i: usize = 0;
        while i < N_RESOURCES
            invariant
                i <= N_RESOURCES,
                counts@.len() == i,
                forall|j: int| 0 <= j < i ==> counts@[j] == 0,
            decreases N_RESOURCES - i,
        {
            counts.push(0);
            i = i + 1;
        }
        proof {
            lemma_positions();
        }
        GoalTable { counts }
    }
}

/// The goal every cetto explorer starts with.
pub open spec fn initial_goal(r: ResourceType) -> i32 {
    match r {
        ResourceType::Basic(BasicResourceType::Oxygen) => 3,
        ResourceType::Basic(BasicResourceType::Carbon) => 4,
        ResourceType::Basic(BasicResourceType::Hydrogen) => 3,
        ResourceType::Basic(BasicResourceType::Silicon) => 1,
        ResourceType::Complex(ComplexResourceType::Life) => 2,
        ResourceType::Complex(ComplexResourceType::Water) => 3,
        ResourceType::Complex(ComplexResourceType::Robot) => 1,
        ResourceType::Complex(ComplexResourceType::Diamond) => 1,
        ResourceType::Complex(ComplexResourceType::Dolphin) => 1,
        ResourceType::Complex(ComplexResourceType::AIPartner) => 1,
    }
}

/// Everything the cetto explorer knows.
pub struct ExplorerKnowledge {
    pub galaxy: GalaxyInfo,
    pub planets: Vec<(u32, PlanetInfo)>,
    pub goal: GoalTable,
}

impl Default for ExplorerKnowledge {
    fn default() -> (k: Self)
        ensures
            k.wf(),
            k.galaxy.keys() == Set::<u32>::empty(),
            k.galaxy.edges() == Set::<(u32, u32)>::empty(),
            k.planets@.len() == 0,
            forall|r: ResourceType| #[trigger] k.goal.goal()[r] == initial_goal(r),
    {
        let mut goal = GoalTable::zero();
        goal.set(ResourceType::Basic(BasicResourceType::Oxygen), 3);
        goal.set(ResourceType::Basic(BasicResourceType::Carbon), 4);
        goal.set(ResourceType::Basic(BasicResourceType::Hydrogen), 3);
        goal.set(ResourceType::Basic(BasicResourceType::Silicon), 1);
        goal.set(ResourceType::Complex(ComplexResourceType::Life), 2);
        goal.set(ResourceType::Complex(ComplexResourceType::Water), 3);
        goal.set(ResourceType::Complex(ComplexResourceType::Robot), 1);
        goal.set(ResourceType::Complex(ComplexResourceType::Diamond), 1);
        goal.set(ResourceType::Complex(ComplexResourceType::Dolphin), 1);
        goal.set(ResourceType::Complex(ComplexResourceType::AIPartner), 1);
        ExplorerKnowledge { galaxy: GalaxyInfo::new(), planets: Vec::new(), goal }
    }
}

impl ExplorerKnowledge {
    pub open spec fn wf(&self) -> bool {
        self.galaxy.wf() && self.goal.wf()
    }

    /// Records what is known about planet `id`, replacing what was known.
    pub fn update_planet(&mut self, id: u32, planet_info: PlanetInfo)
        ensures
            final(self).galaxy == old(self).galaxy,
            final(self).goal == old(self).goal,
            (exists|i: int| 0 <= i < old(self).planets@.len() && old(self).planets@[i].0 == id) ==> exists|i: int|
                0 <= i < old(self).planets@.len() && old(self).planets@[i].0 == id
                && (forall|j: int| 0 <= j < i ==> old(self).planets@[j].0 != id)
                && final(self).planets@ == old(self).planets@.update(i, (id, planet_info)),
            (forall|i: int| 0 <= i < old(self).planets@.len() ==> old(self).planets@[i].0 != id)
                ==> final(self).planets@ == old(self).planets@.push((id, planet_info)),
    {
        let mut i: usize = 0;
        while i < self.planets.len()
            invariant
                i <= self.planets@.len(),
                self.planets@ == old(self).planets@,
                self.galaxy == old(self).galaxy,
                self.goal == old(self).goal,
                forall|j: int| 0 <= j < i ==> self.planets@[j].0 != id,
            decreases self.planets@.len() - i,
        {
            if self.planets[i].0 == id {
                self.planets.remove(i);
                self.planets.insert(i, (id, planet_info));
                proof {
                    assert(self.planets@ =~= old(self).planets@.update(i as int, (id, planet_info)));
                }
                return;
            }
            i = i + 1;
        }
        self.planets.push((id, planet_info));
    }

    /// Connects two planets both ways.
    pub fn add_bi_connection(&mut self, a: u32, b: u32)
        requires
            old(self).wf(),
        ensures
            final(self).wf(),
            final(self).galaxy.keys() == old(self).galaxy.keys().insert(a).insert(b),
            final(self).galaxy.edges() == old(self).galaxy.edges().insert((a, b)).insert((b, a)),
            final(self).planets == old(self).planets,
            final(self).goal == old(self).goal,
    {
        self.galaxy.add_bi_connection(a, b);
    }

    /// Disconnects two planets both ways.
    pub fn remove_bi_connection(&mut self, a: u32, b: u32)
        requires
            old(self).wf(),
        ensures
            final(self).wf(),
            final(self).galaxy.keys() == old(self).galaxy.keys(),
            final(self).galaxy.edges() == old(self).galaxy.edges().remove((a, b)).remove((b, a)),
            final(self).planets == old(self).planets,
            final(self).goal == old(self).goal,
    {
        self.galaxy.remove_bi_connection(a, b);
    }

    /// One fewer of a resource to make.
    pub fn decrease_from_goal(&mut self, resource_type: ResourceType)
        requires
            old(self).wf(),
            old(self).goal.goal()[resource_type] > i32::MIN,
        ensures
            final(self).wf(),
            final(self).goal.goal() == old(self).goal.goal().insert(resource_type, (old(self).goal.goal()[resource_type] - 1) as i32),
            final(self).galaxy == old(self).galaxy,
            final(self).planets == old(self).planets,
    {
        let n = self.goal.get(resource_type);
        self.goal.set(resource_type, n - 1);
    }

    /// Whether no AI partner and no dolphin are left to make.
    pub fn goal_completed(&self) -> (r: bool)
        requires
            self.wf(),
        ensures
            r == (self.goal.goal()[ResourceType::Complex(ComplexResourceType::AIPartner)] == 0
                && self.goal.goal()[ResourceType::Complex(ComplexResourceType::Dolphin)] == 0),
    {
        self.goal.get(ResourceType::Complex(ComplexResourceType::AIPartner)) == 0
            && self.goal.get(ResourceType::Complex(ComplexResourceType::Dolphin)) == 0
    }

    /// Whether no more of a complex resource is to be made.
    pub fn complex_goal_completed(&self, resource_type: ComplexResourceType) -> (r: bool)
        requires
            self.wf(),
        ensures
            r == (self.goal.goal()[ResourceType::Complex(resource_type)] == 0),
    {
        self.goal.get(ResourceType::Complex(resource_type)) == 0
    }

    /// Whether no more of a basic resource is to be made.
    pub fn basic_goal_completed(&self, resource_type: BasicResourceType) -> (r: bool)
        requires
            self.wf(),
        ensures
            r == (self.goal.goal()[ResourceType::Basic(resource_type)] == 0),
    {
        self.goal.get(ResourceType::Basic(resource_type)) == 0
    }
}

} // verus!
