//! The cetto explorer's bag and its decisions: which combinations it can
//! make, the requests it sends, and how it answers the orchestrator and
//! takes in the answers of its planet. The caller does the sending and the
//! waiting.

use vstd::prelude::*;
use crate::cetto::knowledge::{initial_goal, ExplorerKnowledge};
use crate::protocol::{BagContent, ComplexResourceRequest, ExplorerToOrchestrator, ExplorerToPlanet, OrchestratorToExplorer, PlanetToExplorer};
use crate::resources::{
    get_resource_recipe, lemma_positions, recipe, resource_at, resource_from_index, resource_pos, BasicResourceType,
    ComplexResourceType, ResourceType, N_RESOURCES,
};
use crate::table::ResourceTable;
use crate::text::concat;

verus! {

/// Who drives the cetto explorer, or whether it was killed.
#[derive(Clone, Copy, Debug, PartialEq, Eq, Structural)]
pub enum ExplorerMode {
    Auto,
    Manual,
    Killed,
}

/// Number of entries of kind `k` in a list of kinded items.
pub open spec fn kind_count<K, T>(s: Seq<(K, T)>, k: K) -> nat
    decreases s.len(),
{
    if s.len() == 0 {
        0
    } else {
        kind_count(s.drop_last(), k) + if s.last().0 == k { 1nat } else { 0nat }
    }
}

/// Index `i` is the first entry of kind `k`.
pub open spec fn first_of_kind<K, T>(s: Seq<(K, T)>, k: K, i: int) -> bool {
    &&& 0 <= i < s.len()
    &&& s[i].0 == k
    &&& forall|j: int| 0 <= j < i ==> s[j].0 != k
}

/// The items the cetto explorer carries, in the order they came in.
pub struct CettoBag<T> {
    pub basic_resources: Vec<(BasicResourceType, T)>,
    pub complex_resources: Vec<(ComplexResourceType, T)>,
}

/// How many items of kind `r` the bag holds.
pub open spec fn bag_count<T>(b: CettoBag<T>, r: ResourceType) -> nat {
    match r {
        ResourceType::Basic(k) => kind_count(b.basic_resources@, k),
        ResourceType::Complex(k) => kind_count(b.complex_resources@, k),
    }
}

proof fn lemma_kind_count_prefix<K, T>(s: Seq<(K, T)>, k: K, n: int)
    requires
        0 <= n <= s.len(),
    ensures
        kind_count(s.subrange(0, n), k) <= kind_count(s, k),
    decreases s.len() - n,
{
    if n < s.len() {
        lemma_kind_count_prefix(s, k, n + 1);
        assert(s.subrange(0, n + 1).drop_last() =~= s.subrange(0, n));
    } else {
        assert(s.subrange(0, n) =~= s);
    }
}

proof fn lemma_kind_count_bound<K, T>(s: Seq<(K, T)>, k: K)
    ensures
        kind_count(s, k) <= s.len(),
    decreases s.len(),
{
    if s.len() > 0 {
        lemma_kind_count_bound(s.drop_last(), k);
    }
}

proof fn lemma_kind_count_remove<K, T>(s: Seq<(K, T)>, k: K, i: int)
    requires
        0 <= i < s.len(),
    ensures
        kind_count(s, k) == kind_count(s.remove(i), k) + if s[i].0 == k { 1nat } else { 0nat },
    decreases s.len(),
{
    if i == s.len() - 1 {
        assert(s.remove(i) =~= s.drop_last());
    } else {
        lemma_kind_count_remove(s.drop_last(), k, i);
        assert(s.remove(i).drop_last() =~= s.drop_last().remove(i));
        assert(s.remove(i).last() == s.last());
    }
}

proof fn lemma_kind_count_none<K, T>(s: Seq<(K, T)>, k: K)
    requires
        forall|j: int| 0 <= j < s.len() ==> s[j].0 != k,
    ensures
        kind_count(s, k) == 0,
    decreases s.len(),
{
    if s.len() > 0 {
        lemma_kind_count_none(s.drop_last(), k);
    }
}

/// Index of the first basic item of kind `k`.
fn find_basic<T>(s: &Vec<(BasicResourceType, T)>, k: BasicResourceType) -> (r: Option<usize>)
    ensures
        match r {
            None => forall|j: int| 0 <= j < s@.len() ==> s@[j].0 != k,
            Some(i) => first_of_kind(s@, k, i as int),
        },
{
    let mut i: usize = 0;
    while i < s.len()
        invariant
            i <= s@.len(),
            forall|j: int| 0 <= j < i ==> s@[j].0 != k,
        decreases s@.len() - i,
    {
        if s[i].0 == k {
            return Some(i);
        }
        i = i + 1;
    }
    None
}

/// Index of the first complex item of kind `k`.
fn find_complex<T>(s: &Vec<(ComplexResourceType, T)>, k: ComplexResourceType) -> (r: Option<usize>)
    ensures
        match r {
            None => forall|j: int| 0 <= j < s@.len() ==> s@[j].0 != k,
            Some(i) => first_of_kind(s@, k, i as int),
        },
{
    let mut i: usize = 0;
    while i < s.len()
        invariant
            i <= s@.len(),
            forall|j: int| 0 <= j < i ==> s@[j].0 != k,
        decreases s@.len() - i,
    {
        if s[i].0 == k {
            return Some(i);
        }
        i = i + 1;
    }
    None
}

/// Number of basic items of kind `k`.
fn count_basic<T>(s: &Vec<(BasicResourceType, T)>, k: BasicResourceType) -> (n: usize)
    ensures
        n == kind_count(s@, k),
{
    let mut n: usize = 0;
    let mut i: usize = 0;
    while i < s.len()
        invariant
            i <= s@.len(),
            n == kind_count(s@.subrange(0, i as int), k),
        decreases s@.len() - i,
    {
        proof {
            assert(s@.subrange(0, i + 1).drop_last() =~= s@.subrange(0, i as int));
            lemma_kind_count_prefix(s@, k, i + 1);
            lemma_kind_count_bound(s@, k);
        }
        if s[i].0 == k {
            n = n + 1;
        }
        i = i + 1;
    }
    proof {
        assert(s@.subrange(0, i as int) =~= s@);
    }
    n
}

/// Number of complex items of kind `k`.
fn count_complex<T>(s: &Vec<(ComplexResourceType, T)>, k: ComplexResourceType) -> (n: usize)
    ensures
        n == kind_count(s@, k),
{
    let mut n: usize = 0;
    let mut i: usize = 0;
    while i < s.len()
        invariant
            i <= s@.len(),
            n == kind_count(s@.subrange(0, i as int), k),
        decreases s@.len() - i,
    {
        proof {
            assert(s@.subrange(0, i + 1).drop_last() =~= s@.subrange(0, i as int));
            lemma_kind_count_prefix(s@, k, i + 1);
            lemma_kind_count_bound(s@, k);
        }
        if s[i].0 == k {
            n = n + 1;
        }
        i = i + 1;
    }
    proof {
        assert(s@.subrange(0, i as int) =~= s@);
    }
    n
}

impl<T> Default for CettoBag<T> {
    fn default() -> (b: Self)
        ensures
            b.basic_resources@.len() == 0,
            b.complex_resources@.len() == 0,
    {
        CettoBag { basic_resources: Vec::new(), complex_resources: Vec::new() }
    }
}

impl<T> CettoBag<T> {
    /// Takes out the first basic item of a kind, if any.
    pub fn get_basic(&mut self, target_type: BasicResourceType) -> (r: Option<T>)
        ensures
            final(self).complex_resources == old(self).complex_resources,
            r is None <==> (forall|j: int| 0 <= j < old(self).basic_resources@.len() ==> old(self).basic_resources@[j].0 != target_type),
            r is None ==> final(self).basic_resources@ == old(self).basic_resources@,
            forall|i: int| #[trigger] first_of_kind(old(self).basic_resources@, target_type, i) ==> {
                &&& r == Some(old(self).basic_resources@[i].1)
                &&& final(self).basic_resources@ == old(self).basic_resources@.remove(i)
            },
    {
        match find_basic(&self.basic_resources, target_type) {
            None => None,
            Some(i) => {
                let (_, item) = self.basic_resources.remove(i);
                proof {
                    assert forall|j: int| #[trigger] first_of_kind(old(self).basic_resources@, target_type, j) implies j == i by {
                        if j < i {
                            assert(old(self).basic_resources@[j].0 != target_type);
                        }
                        if i < j {
                            assert(old(self).basic_resources@[i as int].0 != target_type);
                        }
                    }
                }
                Some(item)
            },
        }
    }

    /// Takes out the first complex item of a kind, if any.
    pub fn get_complex(&mut self, target_type: ComplexResourceType) -> (r: Option<T>)
        ensures
            final(self).basic_resources == old(self).basic_resources,
            r is None <==> (forall|j: int| 0 <= j < old(self).complex_resources@.len() ==> old(self).complex_resources@[j].0 != target_type),
            r is None ==> final(self).complex_resources@ == old(self).complex_resources@,
            forall|i: int| #[trigger] first_of_kind(old(self).complex_resources@, target_type, i) ==> {
                &&& r == Some(old(self).complex_resources@[i].1)
                &&& final(self).complex_resources@ == old(self).complex_resources@.remove(i)
            },
    {
        match find_complex(&self.complex_resources, target_type) {
            None => None,
            Some(i) => {
                let (_, item) = self.complex_resources.remove(i);
                proof {
                    assert forall|j: int| #[trigger] first_of_kind(old(self).complex_resources@, target_type, j) implies j == i by {
                        if j < i {
                            assert(old(self).complex_resources@[j].0 != target_type);
                        }
                        if i < j {
                            assert(old(self).complex_resources@[i as int].0 != target_type);
                        }
                    }
                }
                Some(item)
            },
        }
    }

    /// Puts an item of any kind at the end of its list.
    pub fn push_generic(&mut self, kind: ResourceType, resource: T)
        ensures
            match kind {
                ResourceType::Basic(k) => final(self).basic_resources@ == old(self).basic_resources@.push((k, resource))
                    && final(self).complex_resources == old(self).complex_resources,
                ResourceType::Complex(k) => final(self).complex_resources@ == old(self).complex_resources@.push((k, resource))
                    && final(self).basic_resources == old(self).basic_resources,
            },
    {
        match kind {
            ResourceType::Basic(k) => self.basic_resources.push((k, resource)),
            ResourceType::Complex(k) => self.complex_resources.push((k, resource)),
        }
    }

    /// How many items of each kind the bag holds, for the kinds it holds.
    pub fn generate_bag_content_hashmap(&self) -> (t: ResourceTable)
        ensures
            t.wf(),
            forall|r: ResourceType| #[trigger] t@.contains_key(r) <==> bag_count(*self, r) > 0,
            forall|r: ResourceType| #[trigger] t@.contains_key(r) ==> t@[r] == bag_count(*self, r),
    {
        let mut t = ResourceTable::new();
        let mut i: usize = 0;
        proof {
            lemma_positions();
        }
        while i < N_RESOURCES
            invariant
                t.wf(),
                i <= N_RESOURCES,
                forall|r: ResourceType| #[trigger] t@.contains_key(r) <==> (bag_count(*self, r) > 0 && resource_pos(r) < i),
                forall|r: ResourceType| #[trigger] t@.contains_key(r) ==> t@[r] == bag_count(*self, r),
            decreases N_RESOURCES - i,
        {
            proof {
                lemma_positions();
            }
            let r = resource_from_index(i);
            let n = match r {
                ResourceType::Basic(k) => count_basic(&self.basic_resources, k),
                ResourceType::Complex(k) => count_complex(&self.complex_resources, k),
            };
            if n > 0 {
                t.insert(r, n);
            }
            i = i + 1;
        }
        t
    }

    /// Whether the bag holds at least `target_count` basic items of a kind.
    pub fn has_basic(&self, typ: BasicResourceType, target_count: i32) -> (r: bool)
        ensures
            r == (kind_count(self.basic_resources@, typ) >= target_count),
    {
        let n = count_basic(&self.basic_resources, typ);
        target_count <= 0 || n >= target_count as usize
    }

    /// Whether the bag holds at least `target_count` complex items of a kind.
    pub fn has_complex(&self, typ: ComplexResourceType, target_count: i32) -> (r: bool)
        ensures
            r == (kind_count(self.complex_resources@, typ) >= target_count),
    {
        let n = count_complex(&self.complex_resources, typ);
        target_count <= 0 || n >= target_count as usize
    }
}

/// The bag holds the ingredients of complex resource `c`.
pub open spec fn has_ingredients_for<T>(b: CettoBag<T>, c: ComplexResourceType) -> bool {
    let (x, y) = recipe(c);
    if x == y {
        bag_count(b, x) >= 2
    } else {
        bag_count(b, x) >= 1 && bag_count(b, y) >= 1
    }
}


/// `b1` and `o` are the bag and the item after taking the first item of
/// kind `r` out of `b0` (nothing is taken when there is none).
pub open spec fn takes<T>(b0: CettoBag<T>, r: ResourceType, b1: CettoBag<T>, o: Option<T>) -> bool {
    match r {
        ResourceType::Basic(k) => {
            &&& b1.complex_resources@ == b0.complex_resources@
            &&& o is None <==> (forall|j: int| 0 <= j < b0.basic_resources@.len() ==> b0.basic_resources@[j].0 != k)
            &&& o is None ==> b1.basic_resources@ == b0.basic_resources@
            &&& forall|i: int| #[trigger] first_of_kind(b0.basic_resources@, k, i) ==> o == Some(b0.basic_resources@[i].1) && b1.basic_resources@ == b0.basic_resources@.remove(i)
        },
        ResourceType::Complex(k) => {
            &&& b1.basic_resources@ == b0.basic_resources@
            &&& o is None <==> (forall|j: int| 0 <= j < b0.complex_resources@.len() ==> b0.complex_resources@[j].0 != k)
            &&& o is None ==> b1.complex_resources@ == b0.complex_resources@
            &&& forall|i: int| #[trigger] first_of_kind(b0.complex_resources@, k, i) ==> o == Some(b0.complex_resources@[i].1) && b1.complex_resources@ == b0.complex_resources@.remove(i)
        },
    }
}

/// `b1` is `b0` with an item of kind `r` put at the end of its list.
pub open spec fn puts<T>(b0: CettoBag<T>, r: ResourceType, x: T, b1: CettoBag<T>) -> bool {
    match r {
        ResourceType::Basic(k) => b1.basic_resources@ == b0.basic_resources@.push((k, x)) && b1.complex_resources@ == b0.complex_resources@,
        ResourceType::Complex(k) => b1.complex_resources@ == b0.complex_resources@.push((k, x)) && b1.basic_resources@ == b0.basic_resources@,
    }
}

/// The text of a combination that cannot be asked for.
pub open spec fn missing_ingredient_text() -> Seq<char> {
    "Combination not possible, missing ingredient"@
}

/// What asking for `target` from ingredients of kinds `a` then `b` does to
/// bag `b0`: take an `a`; without one, fail; then take a `b`; without one,
/// put the `a` back at the end of its list and fail; else ask with both.
pub open spec fn request_made<T>(b0: CettoBag<T>, a: ResourceType, b: ResourceType, target: ComplexResourceType, b2: CettoBag<T>, r: Result<ComplexResourceRequest<T>, String>) -> bool {
    exists|b1: CettoBag<T>, o1: Option<T>| #[trigger] takes(b0, a, b1, o1) && match o1 {
        None => b2.basic_resources@ == b0.basic_resources@ && b2.complex_resources@ == b0.complex_resources@
            && (r matches Err(m) && m@ == missing_ingredient_text()),
        Some(x) => exists|b3: CettoBag<T>, o2: Option<T>| #[trigger] takes(b1, b, b3, o2) && match o2 {
            None => puts(b1, a, x, b2) && (r matches Err(m) && m@ == missing_ingredient_text()),
            Some(y) => b2.basic_resources@ == b3.basic_resources@ && b2.complex_resources@ == b3.complex_resources@
                && r == Ok::<ComplexResourceRequest<T>, String>(ComplexResourceRequest { target, first: x, second: y }),
        },
    }
}

impl<T> CettoBag<T> {
    /// Takes out the first item of a kind, if any.
    pub fn take(&mut self, r: ResourceType) -> (o: Option<T>)
        ensures
            takes(*old(self), r, *final(self), o),
    {
        match r {
            ResourceType::Basic(k) => self.get_basic(k),
            ResourceType::Complex(k) => self.get_complex(k),
        }
    }

    /// Takes out an `a` and a `b` and asks for `target` with them; see
    /// `request_made`.
    pub fn make_request(&mut self, a: ResourceType, b: ResourceType, target: ComplexResourceType) -> (r: Result<ComplexResourceRequest<T>, String>)
        ensures
            request_made(*old(self), a, b, target, *final(self), r),
    {
        let ghost b0 = *self;
        let res1 = self.take(a);
        let ghost b1 = *self;
        match res1 {
            None => {
                let r = Err("Combination not possible, missing ingredient".to_owned());
                proof {
                    assert(takes(b0, a, b1, res1));
                }
                r
            },
            Some(x) => {
                let res2 = self.take(b);
                let ghost b3 = *self;
                proof {
                    assert(takes(b0, a, b1, res1));
                    assert(takes(b1, b, b3, res2));
                }
                match res2 {
                    None => {
                        self.push_generic(a, x);
                        Err("Combination not possible, missing ingredient".to_owned())
                    },
                    Some(y) => Ok(ComplexResourceRequest { target, first: x, second: y }),
                }
            },
        }
    }
}

/// The cetto explorer. Its items are opaque values of type `T`.
pub struct CettoExplorer<T> {
    pub id: u32,
    pub current_planet_id: u32,
    pub mode: ExplorerMode,
    pub bag: CettoBag<T>,
    pub knowledge: ExplorerKnowledge,
}

/// The combination `comp` is worth making: more are wanted, the bag holds
/// the ingredients and a charged cell is left.
pub open spec fn combinable<T>(e: CettoExplorer<T>, comp: ComplexResourceType, cells: u32) -> bool {
    e.knowledge.goal.goal()[ResourceType::Complex(comp)] != 0 && has_ingredients_for(e.bag, comp) && cells > 0
}

impl<T> CettoExplorer<T> {
    pub open spec fn wf(&self) -> bool {
        self.knowledge.wf()
    }

    /// An explorer in automatic mode with an empty bag and the initial goal.
    pub fn new(id: u32, current_planet_id: u32) -> (e: Self)
        ensures
            e.wf(),
            e.id == id,
            e.current_planet_id == current_planet_id,
            e.mode == ExplorerMode::Auto,
            e.bag.basic_resources@.len() == 0,
            e.bag.complex_resources@.len() == 0,
            e.knowledge.galaxy.keys() == Set::<u32>::empty(),
            e.knowledge.galaxy.edges() == Set::<(u32, u32)>::empty(),
            e.knowledge.planets@.len() == 0,
            forall|r: ResourceType| #[trigger] e.knowledge.goal.goal()[r] == initial_goal(r),
    {
        CettoExplorer {
            id,
            current_planet_id,
            mode: ExplorerMode::Auto,
            bag: CettoBag::default(),
            knowledge: ExplorerKnowledge::default(),
        }
    }

    /// Whether the bag holds the ingredients of a complex resource.
    pub fn has_ingredients(&self, typ: ComplexResourceType) -> (r: bool)
        ensures
            r == has_ingredients_for(self.bag, typ),
    {
        match typ {
            ComplexResourceType::Water => self.bag.has_basic(BasicResourceType::Oxygen, 1) && self.bag.has_basic(BasicResourceType::Hydrogen, 1),
            ComplexResourceType::Diamond => self.bag.has_basic(BasicResourceType::Carbon, 2),
            ComplexResourceType::Life => self.bag.has_complex(ComplexResourceType::Water, 1) && self.bag.has_basic(BasicResourceType::Carbon, 1),
            ComplexResourceType::Robot => self.bag.has_complex(ComplexResourceType::Life, 1) && self.bag.has_basic(BasicResourceType::Silicon, 1),
            ComplexResourceType::Dolphin => self.bag.has_complex(ComplexResourceType::Water, 1) && self.bag.has_complex(ComplexResourceType::Life, 1),
            ComplexResourceType::AIPartner => self.bag.has_complex(ComplexResourceType::Robot, 1) && self.bag.has_complex(ComplexResourceType::Diamond, 1),
        }
    }

    /// Whether to combine `comp` with `cells` charged cells left.
    pub fn can_combine(&self, comp: ComplexResourceType, cells: u32) -> (r: bool)
        requires
            self.wf(),
        ensures
            r == combinable(*self, comp, cells),
    {
        !self.knowledge.complex_goal_completed(comp) && self.has_ingredients(comp) && cells > 0
    }

    /// Whether to generate `bas` with `cells` charged cells left.
    pub fn wants_basic(&self, bas: BasicResourceType, cells: u32) -> (r: bool)
        requires
            self.wf(),
        ensures
            r == (self.knowledge.goal.goal()[ResourceType::Basic(bas)] != 0 && cells > 0),
    {
        !self.knowledge.basic_goal_completed(bas) && cells > 0
    }

    /// Whether a turn is worth playing: not in manual mode and the goal not
    /// completed.
    pub fn should_play(&self) -> (r: bool)
        requires
            self.wf(),
        ensures
            r == !(self.mode == ExplorerMode::Manual || (self.knowledge.goal.goal()[ResourceType::Complex(ComplexResourceType::AIPartner)] == 0
                && self.knowledge.goal.goal()[ResourceType::Complex(ComplexResourceType::Dolphin)] == 0)),
    {
        !(self.mode == ExplorerMode::Manual || self.knowledge.goal_completed())
    }

    pub fn make_water_request(&mut self) -> (r: Result<ComplexResourceRequest<T>, String>)
        ensures
            request_made(old(self).bag, recipe(ComplexResourceType::Water).0, recipe(ComplexResourceType::Water).1, ComplexResourceType::Water, final(self).bag, r),
            final(self).knowledge == old(self).knowledge,
            final(self).id == old(self).id,
            final(self).current_planet_id == old(self).current_planet_id,
            final(self).mode == old(self).mode,
    {
        let (a, b) = get_resource_recipe(&ComplexResourceType::Water);
        self.bag.make_request(a, b, ComplexResourceType::Water)
    }

    pub fn make_diamond_request(&mut self) -> (r: Result<ComplexResourceRequest<T>, String>)
        ensures
            request_made(old(self).bag, recipe(ComplexResourceType::Diamond).0, recipe(ComplexResourceType::Diamond).1, ComplexResourceType::Diamond, final(self).bag, r),
            final(self).knowledge == old(self).knowledge,
            final(self).id == old(self).id,
            final(self).current_planet_id == old(self).current_planet_id,
            final(self).mode == old(self).mode,
    {
        let (a, b) = get_resource_recipe(&ComplexResourceType::Diamond);
        self.bag.make_request(a, b, ComplexResourceType::Diamond)
    }

    pub fn make_life_request(&mut self) -> (r: Result<ComplexResourceRequest<T>, String>)
        ensures
            request_made(old(self).bag, recipe(ComplexResourceType::Life).0, recipe(ComplexResourceType::Life).1, ComplexResourceType::Life, final(self).bag, r),
            final(self).knowledge == old(self).knowledge,
            final(self).id == old(self).id,
            final(self).current_planet_id == old(self).current_planet_id,
            final(self).mode == old(self).mode,
    {
        let (a, b) = get_resource_recipe(&ComplexResourceType::Life);
        self.bag.make_request(a, b, ComplexResourceType::Life)
    }

    pub fn make_robot_request(&mut self) -> (r: Result<ComplexResourceRequest<T>, String>)
        ensures
            request_made(old(self).bag, recipe(ComplexResourceType::Robot).0, recipe(ComplexResourceType::Robot).1, ComplexResourceType::Robot, final(self).bag, r),
            final(self).knowledge == old(self).knowledge,
            final(self).id == old(self).id,
            final(self).current_planet_id == old(self).current_planet_id,
            final(self).mode == old(self).mode,
    {
        let (a, b) = get_resource_recipe(&ComplexResourceType::Robot);
        self.bag.make_request(a, b, ComplexResourceType::Robot)
    }

    pub fn make_dolphin_request(&mut self) -> (r: Result<ComplexResourceRequest<T>, String>)
        ensures
            request_made(old(self).bag, recipe(ComplexResourceType::Dolphin).0, recipe(ComplexResourceType::Dolphin).1, ComplexResourceType::Dolphin, final(self).bag, r),
            final(self).knowledge == old(self).knowledge,
            final(self).id == old(self).id,
            final(self).current_planet_id == old(self).current_planet_id,
            final(self).mode == old(self).mode,
    {
        let (a, b) = get_resource_recipe(&ComplexResourceType::Dolphin);
        self.bag.make_request(a, b, ComplexResourceType::Dolphin)
    }

    pub fn make_aipartner_request(&mut self) -> (r: Result<ComplexResourceRequest<T>, String>)
        ensures
            request_made(old(self).bag, recipe(ComplexResourceType::AIPartner).0, recipe(ComplexResourceType::AIPartner).1, ComplexResourceType::AIPartner, final(self).bag, r),
            final(self).knowledge == old(self).knowledge,
            final(self).id == old(self).id,
            final(self).current_planet_id == old(self).current_planet_id,
            final(self).mode == old(self).mode,
    {
        let (a, b) = get_resource_recipe(&ComplexResourceType::AIPartner);
        self.bag.make_request(a, b, ComplexResourceType::AIPartner)
    }
}


/// The request to the planet an orchestrator request of the cetto explorer
/// waits on.
#[derive(Clone, Copy, Debug, PartialEq, Eq, Structural)]
pub enum CettoPending {
    SupportedResource,
    SupportedCombination,
    GenerateResource,
    CombineResource,
}

/// The cetto explorer's reaction to a message from the orchestrator.
pub enum CettoReaction<T> {
    /// Answer the orchestrator (when there is a reply) and end with `result`.
    Reply { reply: Option<ExplorerToOrchestrator>, result: Result<(), String> },
    /// Send `request` to the current planet and hand its answer to
    /// `complete_planet_request` with `pending`.
    AskPlanet { request: ExplorerToPlanet<T>, pending: CettoPending },
    /// Play the turn on the current planet, then report the bag.
    PlayTurnThenReport,
}

/// The planet's answer is the kind of answer `pending` waits for.
pub open spec fn answers<T>(pending: CettoPending, answer: PlanetToExplorer<T>) -> bool {
    match pending {
        CettoPending::SupportedResource => answer is SupportedResourceResponse,
        CettoPending::SupportedCombination => answer is SupportedCombinationResponse,
        CettoPending::GenerateResource => answer is GenerateResourceResponse,
        CettoPending::CombineResource => answer is CombineResourceResponse,
    }
}

/// The goal can take one more decrement on kind `r`.
pub open spec fn can_decrease<T>(e: CettoExplorer<T>, r: ResourceType) -> bool {
    e.knowledge.goal.goal()[r] > i32::MIN
}

/// `e1` is `e0` with one fewer of `r` to make.
pub open spec fn decreased<T>(e0: CettoExplorer<T>, e1: CettoExplorer<T>, r: ResourceType) -> bool {
    &&& e1.knowledge.goal.goal() == e0.knowledge.goal.goal().insert(r, (e0.knowledge.goal.goal()[r] - 1) as i32)
    &&& e1.knowledge.galaxy == e0.knowledge.galaxy
    &&& e1.knowledge.planets == e0.knowledge.planets
}

/// The text of a failed combination.
pub open spec fn combination_failed_text(err: Seq<char>) -> Seq<char> {
    "The combination has failed: "@ + err
}

impl<T> CettoExplorer<T> {
    /// Takes out the ingredients of `to_generate` and makes the request.
    pub fn prepare_combination(&mut self, to_generate: ComplexResourceType) -> (r: Result<ComplexResourceRequest<T>, String>)
        ensures
            request_made(old(self).bag, recipe(to_generate).0, recipe(to_generate).1, to_generate, final(self).bag, r),
            final(self).knowledge == old(self).knowledge,
            final(self).id == old(self).id,
            final(self).current_planet_id == old(self).current_planet_id,
            final(self).mode == old(self).mode,
    {
        match to_generate {
            ComplexResourceType::Water => self.make_water_request(),
            ComplexResourceType::Diamond => self.make_diamond_request(),
            ComplexResourceType::Life => self.make_life_request(),
            ComplexResourceType::Robot => self.make_robot_request(),
            ComplexResourceType::Dolphin => self.make_dolphin_request(),
            ComplexResourceType::AIPartner => self.make_aipartner_request(),
        }
    }

    /// Takes in the answer to a combination: the combined item goes into
    /// the bag and counts towards the goal; the ingredients of a failed
    /// combination go back into the bag and the combination fails.
    pub fn process_combine_response(&mut self, response: Result<(ComplexResourceType, T), (String, (ResourceType, T), (ResourceType, T))>) -> (r: Result<(), String>)
        requires
            old(self).wf(),
            response matches Ok((k, _)) ==> can_decrease(*old(self), ResourceType::Complex(k)),
        ensures
            final(self).wf(),
            final(self).id == old(self).id,
            final(self).current_planet_id == old(self).current_planet_id,
            final(self).mode == old(self).mode,
            match response {
                Ok((k, item)) => {
                    &&& r is Ok
                    &&& decreased(*old(self), *final(self), ResourceType::Complex(k))
                    &&& final(self).bag.complex_resources@ == old(self).bag.complex_resources@.push((k, item))
                    &&& final(self).bag.basic_resources@ == old(self).bag.basic_resources@
                },
                Err((err, (k1, x1), (k2, x2))) => {
                    &&& final(self).knowledge == old(self).knowledge
                    &&& exists|mid: CettoBag<T>| puts(old(self).bag, k1, x1, mid) && puts(mid, k2, x2, final(self).bag)
                    &&& r matches Err(m) && m@ == combination_failed_text(err@)
                },
            },
    {
        match response {
            Ok((k, item)) => {
                self.knowledge.decrease_from_goal(ResourceType::Complex(k));
                self.bag.complex_resources.push((k, item));
                Ok(())
            },
            Err((err, (k1, x1), (k2, x2))) => {
                self.bag.push_generic(k1, x1);
                let ghost mid = self.bag;
                self.bag.push_generic(k2, x2);
                proof {
                    assert(puts(old(self).bag, k1, x1, mid));
                }
                Err(concat("The combination has failed: ", err.as_str()))
            },
        }
    }

    /// Takes in the answer to a generation: the generated item goes into the
    /// bag and counts towards the goal; without one the generation fails.
    pub fn process_generate_response(&mut self, resource: Option<(BasicResourceType, T)>) -> (r: Result<(), String>)
        requires
            old(self).wf(),
            resource matches Some((k, _)) ==> can_decrease(*old(self), ResourceType::Basic(k)),
        ensures
            final(self).wf(),
            final(self).id == old(self).id,
            final(self).current_planet_id == old(self).current_planet_id,
            final(self).mode == old(self).mode,
            match resource {
                Some((k, item)) => {
                    &&& r is Ok
                    &&& decreased(*old(self), *final(self), ResourceType::Basic(k))
                    &&& final(self).bag.basic_resources@ == old(self).bag.basic_resources@.push((k, item))
                    &&& final(self).bag.complex_resources@ == old(self).bag.complex_resources@
                },
                None => {
                    &&& final(self).knowledge == old(self).knowledge
                    &&& final(self).bag == old(self).bag
                    &&& r matches Err(m) && m@ == "The resource could not be generated"@
                },
            },
    {
        match resource {
            Some((k, item)) => {
                self.knowledge.decrease_from_goal(ResourceType::Basic(k));
                self.bag.basic_resources.push((k, item));
                Ok(())
            },
            None => Err("The resource could not be generated".to_owned()),
        }
    }

    /// A killed explorer takes no request but a reset.
    pub fn handle_nonsense_requests(&self, msg: &OrchestratorToExplorer) -> (r: Result<(), String>)
        ensures
            (self.mode == ExplorerMode::Killed && !(*msg is ResetExplorerAI)) ==> (r matches Err(m) && m@ == "Explorer is dead and is requested to do something"@),
            !(self.mode == ExplorerMode::Killed && !(*msg is ResetExplorerAI)) ==> r is Ok,
    {
        let is_reset = match msg {
            OrchestratorToExplorer::ResetExplorerAI => true,
            _ => false,
        };
        if self.mode == ExplorerMode::Killed && !is_reset {
            return Err("Explorer is dead and is requested to do something".to_owned());
        }
        Ok(())
    }

    /// The bag report: how many items of each kind the bag holds.
    pub fn bag_report(&self) -> (r: ExplorerToOrchestrator)
        ensures
            r matches ExplorerToOrchestrator::BagContentResponse { explorer_id, bag_content } && explorer_id == self.id
                && (forall|k: ResourceType| #[trigger] bag_content.content@.contains_key(k) <==> bag_count(self.bag, k) > 0)
                && (forall|k: ResourceType| #[trigger] bag_content.content@.contains_key(k) ==> bag_content.content@[k] == bag_count(self.bag, k)),
    {
        ExplorerToOrchestrator::BagContentResponse {
            explorer_id: self.id,
            bag_content: BagContent { content: self.bag.generate_bag_content_hashmap() },
        }
    }
}


/// `r` replies `reply` and ends well.
pub open spec fn cetto_replies<T>(r: CettoReaction<T>, reply: ExplorerToOrchestrator) -> bool {
    r matches CettoReaction::Reply { reply: Some(m), result: Ok(()) } && m == reply
}

/// What handling message `msg` from the orchestrator does, for an explorer
/// that takes it (a killed explorer takes nothing but a reset).
pub open spec fn cetto_message_post<T>(e0: CettoExplorer<T>, e1: CettoExplorer<T>, msg: OrchestratorToExplorer, r: CettoReaction<T>) -> bool {
    let id = e0.id;
    let cur = e0.current_planet_id;
    let unchanged = e1.knowledge == e0.knowledge && e1.bag == e0.bag && e1.current_planet_id == cur;
    if e0.mode == ExplorerMode::Killed && !(msg is ResetExplorerAI) {
        &&& unchanged && e1.mode == e0.mode
        &&& r matches CettoReaction::Reply { reply: None, result: Err(m) } && m@ == "Explorer is dead and is requested to do something"@
    } else {
        match msg {
            OrchestratorToExplorer::StartExplorerAI => unchanged && e1.mode == ExplorerMode::Auto
                && cetto_replies(r, ExplorerToOrchestrator::StartExplorerAIResult { explorer_id: id }),
            OrchestratorToExplorer::StopExplorerAI => unchanged && e1.mode == ExplorerMode::Manual
                && cetto_replies(r, ExplorerToOrchestrator::StopExplorerAIResult { explorer_id: id }),
            OrchestratorToExplorer::ResetExplorerAI => {
                &&& e1.current_planet_id == cur
                &&& e1.mode == (if e0.mode == ExplorerMode::Killed { ExplorerMode::Manual } else { e0.mode })
                &&& e1.bag.basic_resources@.len() == 0 && e1.bag.complex_resources@.len() == 0
                &&& e1.knowledge.galaxy.keys() == Set::<u32>::empty()
                &&& e1.knowledge.galaxy.edges() == Set::<(u32, u32)>::empty()
                &&& e1.knowledge.planets@.len() == 0
                &&& forall|k: ResourceType| #[trigger] e1.knowledge.goal.goal()[k] == initial_goal(k)
                &&& cetto_replies(r, ExplorerToOrchestrator::ResetExplorerAIResult { explorer_id: id })
            },
            OrchestratorToExplorer::KillExplorer => unchanged && e1.mode == ExplorerMode::Killed
                && cetto_replies(r, ExplorerToOrchestrator::KillExplorerResult { explorer_id: id }),
            OrchestratorToExplorer::MoveToPlanet { has_sender, planet_id } => {
                &&& e1.knowledge == e0.knowledge && e1.bag == e0.bag && e1.mode == e0.mode
                &&& e1.current_planet_id == (if has_sender { planet_id } else { cur })
                &&& cetto_replies(r, ExplorerToOrchestrator::MovedToPlanetResult { explorer_id: id, planet_id: e1.current_planet_id })
            },
            OrchestratorToExplorer::CurrentPlanetRequest => unchanged && e1.mode == e0.mode
                && cetto_replies(r, ExplorerToOrchestrator::CurrentPlanetResult { explorer_id: id, planet_id: cur }),
            OrchestratorToExplorer::SupportedResourceRequest => unchanged && e1.mode == e0.mode
                && r == CettoReaction::<T>::AskPlanet {
                    request: ExplorerToPlanet::SupportedResourceRequest { explorer_id: id },
                    pending: CettoPending::SupportedResource,
                },
            OrchestratorToExplorer::SupportedCombinationRequest => unchanged && e1.mode == e0.mode
                && r == CettoReaction::<T>::AskPlanet {
                    request: ExplorerToPlanet::SupportedCombinationRequest { explorer_id: id },
                    pending: CettoPending::SupportedCombination,
                },
            OrchestratorToExplorer::GenerateResourceRequest { to_generate } => unchanged && e1.mode == e0.mode
                && r == CettoReaction::<T>::AskPlanet {
                    request: ExplorerToPlanet::GenerateResourceRequest { explorer_id: id, resource: to_generate },
                    pending: CettoPending::GenerateResource,
                },
            OrchestratorToExplorer::CombineResourceRequest { to_generate } => {
                &&& e1.knowledge == e0.knowledge && e1.current_planet_id == cur && e1.mode == e0.mode
                &&& exists|made: Result<ComplexResourceRequest<T>, String>|
                    #[trigger] request_made(e0.bag, recipe(to_generate).0, recipe(to_generate).1, to_generate, e1.bag, made)
                        && match made {
                        Err(m) => r == CettoReaction::<T>::Reply { reply: None, result: Err(m) },
                        Ok(req) => r == CettoReaction::<T>::AskPlanet {
                            request: ExplorerToPlanet::CombineResourceRequest { explorer_id: id, msg: req },
                            pending: CettoPending::CombineResource,
                        },
                    }
            },
            OrchestratorToExplorer::BagContentRequest => unchanged && e1.mode == e0.mode && r is PlayTurnThenReport,
            OrchestratorToExplorer::NeighborsResponse { neighbors } => {
                &&& e1.bag == e0.bag && e1.current_planet_id == cur && e1.mode == e0.mode
                &&& e1.knowledge.planets == e0.knowledge.planets
                &&& e1.knowledge.goal == e0.knowledge.goal
                &&& e1.knowledge.galaxy.keys() == e0.knowledge.galaxy.keys().union(neighbors@.to_set()).union(
                    if neighbors@.len() > 0 { set![cur] } else { Set::empty() },
                )
                &&& forall|a: u32, b: u32| #[trigger] e1.knowledge.galaxy.edges().contains((a, b)) <==> e0.knowledge.galaxy.edges().contains((a, b))
                    || (a == cur && neighbors@.contains(b)) || (b == cur && neighbors@.contains(a))
                &&& r matches CettoReaction::Reply { reply: None, result: Ok(()) }
            },
        }
    }
}

impl<T> CettoExplorer<T> {
    /// Connects the current planet with each of `neighbors`, both ways.
    fn add_neighbors(&mut self, neighbors: &Vec<u32>)
        requires
            old(self).wf(),
        ensures
            final(self).wf(),
            final(self).bag == old(self).bag,
            final(self).id == old(self).id,
            final(self).current_planet_id == old(self).current_planet_id,
            final(self).mode == old(self).mode,
            final(self).knowledge.planets == old(self).knowledge.planets,
            final(self).knowledge.goal == old(self).knowledge.goal,
            final(self).knowledge.galaxy.keys() == old(self).knowledge.galaxy.keys().union(neighbors@.to_set()).union(
                if neighbors@.len() > 0 { set![old(self).current_planet_id] } else { Set::empty() },
            ),
            forall|a: u32, b: u32| #[trigger] final(self).knowledge.galaxy.edges().contains((a, b)) <==> old(self).knowledge.galaxy.edges().contains((a, b))
                || (a == old(self).current_planet_id && neighbors@.contains(b)) || (b == old(self).current_planet_id && neighbors@.contains(a)),
    {
        let cur = self.current_planet_id;
        let mut i: usize = 0;
        while i < neighbors.len()
            invariant
                self.wf(),
                i <= neighbors@.len(),
                self.bag == old(self).bag,
                self.id == old(self).id,
                self.current_planet_id == cur,
                cur == old(self).current_planet_id,
                self.mode == old(self).mode,
                self.knowledge.planets == old(self).knowledge.planets,
                self.knowledge.goal == old(self).knowledge.goal,
                self.knowledge.galaxy.keys() == old(self).knowledge.galaxy.keys().union(neighbors@.subrange(0, i as int).to_set()).union(
                    if i > 0 { set![cur] } else { Set::empty() },
                ),
                forall|a: u32, b: u32| #[trigger] self.knowledge.galaxy.edges().contains((a, b)) <==> old(self).knowledge.galaxy.edges().contains((a, b))
                    || (a == cur && neighbors@.subrange(0, i as int).contains(b)) || (b == cur && neighbors@.subrange(0, i as int).contains(a)),
            decreases neighbors@.len() - i,
        {
            let n = neighbors[i];
            let ghost before = self.knowledge.galaxy.edges();
            let ghost keys_before = self.knowledge.galaxy.keys();
            self.knowledge.add_bi_connection(cur, n);
            proof {
                let pre = neighbors@.subrange(0, i as int);
                let post = neighbors@.subrange(0, i + 1);
                assert(post =~= pre.push(n));
                assert forall|x: u32| post.contains(x) <==> pre.contains(x) || x == n by {
                    if post.contains(x) {
                        let j = choose|j: int| 0 <= j < post.len() && post[j] == x;
                        if j < pre.len() {
                            assert(pre[j] == x);
                        }
                    }
                    if pre.contains(x) {
                        let j = choose|j: int| 0 <= j < pre.len() && pre[j] == x;
                        assert(post[j] == x);
                    }
                    if x == n {
                        assert(post[i as int] == n);
                    }
                }
                assert(post.to_set() =~= pre.to_set().insert(n));
                assert(self.knowledge.galaxy.keys() =~= old(self).knowledge.galaxy.keys().union(post.to_set()).union(set![cur]));
                assert forall|a: u32, b: u32| #[trigger] self.knowledge.galaxy.edges().contains((a, b)) <==> old(self).knowledge.galaxy.edges().contains((a, b))
                    || (a == cur && post.contains(b)) || (b == cur && post.contains(a)) by {
                    assert(self.knowledge.galaxy.edges().contains((a, b)) <==> before.contains((a, b)) || (a, b) == (cur, n) || (a, b) == (n, cur));
                }
            }
            i = i + 1;
        }
        proof {
            assert(neighbors@.subrange(0, i as int) =~= neighbors@);
        }
    }

    /// Reacts to a message from the orchestrator: a killed explorer refuses
    /// all but a reset; mode changes, moves and neighbours are taken in;
    /// questions about the current planet and resource requests are passed
    /// on to it; a bag request plays the turn first.
    pub fn handle_orchestrator_message(&mut self, msg: OrchestratorToExplorer) -> (r: CettoReaction<T>)
        requires
            old(self).wf(),
        ensures
            final(self).wf(),
            final(self).id == old(self).id,
            cetto_message_post(*old(self), *final(self), msg, r),
    {
        match self.handle_nonsense_requests(&msg) {
            Err(e) => return CettoReaction::Reply { reply: None, result: Err(e) },
            Ok(()) => {},
        }
        let id = self.id;
        match msg {
            OrchestratorToExplorer::StartExplorerAI => {
                self.mode = ExplorerMode::Auto;
                CettoReaction::Reply { reply: Some(ExplorerToOrchestrator::StartExplorerAIResult { explorer_id: id }), result: Ok(()) }
            },
            OrchestratorToExplorer::StopExplorerAI => {
                self.mode = ExplorerMode::Manual;
                CettoReaction::Reply { reply: Some(ExplorerToOrchestrator::StopExplorerAIResult { explorer_id: id }), result: Ok(()) }
            },
            OrchestratorToExplorer::ResetExplorerAI => {
                if self.mode == ExplorerMode::Killed {
                    self.mode = ExplorerMode::Manual;
                }
                self.bag = CettoBag::default();
                self.knowledge = ExplorerKnowledge::default();
                CettoReaction::Reply { reply: Some(ExplorerToOrchestrator::ResetExplorerAIResult { explorer_id: id }), result: Ok(()) }
            },
            OrchestratorToExplorer::KillExplorer => {
                self.mode = ExplorerMode::Killed;
                CettoReaction::Reply { reply: Some(ExplorerToOrchestrator::KillExplorerResult { explorer_id: id }), result: Ok(()) }
            },
            OrchestratorToExplorer::MoveToPlanet { has_sender, planet_id } => {
                if has_sender {
                    self.current_planet_id = planet_id;
                }
                CettoReaction::Reply {
                    reply: Some(ExplorerToOrchestrator::MovedToPlanetResult { explorer_id: id, planet_id: self.current_planet_id }),
                    result: Ok(()),
                }
            },
            OrchestratorToExplorer::CurrentPlanetRequest => CettoReaction::Reply {
                reply: Some(ExplorerToOrchestrator::CurrentPlanetResult { explorer_id: id, planet_id: self.current_planet_id }),
                result: Ok(()),
            },
            OrchestratorToExplorer::SupportedResourceRequest => CettoReaction::AskPlanet {
                request: ExplorerToPlanet::SupportedResourceRequest { explorer_id: id },
                pending: CettoPending::SupportedResource,
            },
            OrchestratorToExplorer::SupportedCombinationRequest => CettoReaction::AskPlanet {
                request: ExplorerToPlanet::SupportedCombinationRequest { explorer_id: id },
                pending: CettoPending::SupportedCombination,
            },
            OrchestratorToExplorer::GenerateResourceRequest { to_generate } => CettoReaction::AskPlanet {
                request: ExplorerToPlanet::GenerateResourceRequest { explorer_id: id, resource: to_generate },
                pending: CettoPending::GenerateResource,
            },
            OrchestratorToExplorer::CombineResourceRequest { to_generate } => {
                let made = self.prepare_combination(to_generate);
                proof {
                    assert(request_made(old(self).bag, recipe(to_generate).0, recipe(to_generate).1, to_generate, self.bag, made));
                }
                match made {
                    Err(e) => CettoReaction::Reply { reply: None, result: Err(e) },
                    Ok(req) => CettoReaction::AskPlanet {
                        request: ExplorerToPlanet::CombineResourceRequest { explorer_id: id, msg: req },
                        pending: CettoPending::CombineResource,
                    },
                }
            },
            OrchestratorToExplorer::BagContentRequest => CettoReaction::PlayTurnThenReport,
            OrchestratorToExplorer::NeighborsResponse { neighbors } => {
                self.add_neighbors(&neighbors);
                CettoReaction::Reply { reply: None, result: Ok(()) }
            },
        }
    }

    /// Takes in the planet's answer to a request passed on by
    /// `handle_orchestrator_message`, and says what to reply to the
    /// orchestrator and how the request ends.
    pub fn complete_planet_request(&mut self, pending: CettoPending, answer: PlanetToExplorer<T>) -> (r: (Option<ExplorerToOrchestrator>, Result<(), String>))
        requires
            old(self).wf(),
            answers(pending, answer),
            answer matches PlanetToExplorer::GenerateResourceResponse { resource: Some((k, _)) } ==> can_decrease(*old(self), ResourceType::Basic(k)),
            answer matches PlanetToExplorer::CombineResourceResponse { complex_response: Ok((k, _)) } ==> can_decrease(*old(self), ResourceType::Complex(k)),
        ensures
            final(self).wf(),
            final(self).id == old(self).id,
            final(self).current_planet_id == old(self).current_planet_id,
            final(self).mode == old(self).mode,
            match answer {
                PlanetToExplorer::SupportedResourceResponse { resource_list } => final(self).bag == old(self).bag
                    && final(self).knowledge == old(self).knowledge && r.1 is Ok
                    && r.0 == Some(ExplorerToOrchestrator::SupportedResourceResult { explorer_id: old(self).id, supported_resources: resource_list }),
                PlanetToExplorer::SupportedCombinationResponse { combination_list } => final(self).bag == old(self).bag
                    && final(self).knowledge == old(self).knowledge && r.1 is Ok
                    && r.0 == Some(ExplorerToOrchestrator::SupportedCombinationResult { explorer_id: old(self).id, combination_list }),
                PlanetToExplorer::GenerateResourceResponse { resource } => match resource {
                    Some((k, item)) => decreased(*old(self), *final(self), ResourceType::Basic(k))
                        && final(self).bag.basic_resources@ == old(self).bag.basic_resources@.push((k, item))
                        && final(self).bag.complex_resources@ == old(self).bag.complex_resources@
                        && r.1 is Ok
                        && r.0 == Some(ExplorerToOrchestrator::GenerateResourceResponse { explorer_id: old(self).id, generated: Ok(()) }),
                    None => final(self).knowledge == old(self).knowledge && final(self).bag == old(self).bag
                        && r.0 is None && (r.1 matches Err(m) && m@ == "The resource could not be generated"@),
                },
                PlanetToExplorer::CombineResourceResponse { complex_response } => match complex_response {
                    Ok((k, item)) => decreased(*old(self), *final(self), ResourceType::Complex(k))
                        && final(self).bag.complex_resources@ == old(self).bag.complex_resources@.push((k, item))
                        && final(self).bag.basic_resources@ == old(self).bag.basic_resources@
                        && r.1 is Ok
                        && r.0 == Some(ExplorerToOrchestrator::CombineResourceResponse { explorer_id: old(self).id, generated: Ok(()) }),
                    Err((err, (k1, x1), (k2, x2))) => final(self).knowledge == old(self).knowledge
                        && (exists|mid: CettoBag<T>| puts(old(self).bag, k1, x1, mid) && puts(mid, k2, x2, final(self).bag))
                        && r.0 is None && (r.1 matches Err(m) && m@ == combination_failed_text(err@)),
                },
                _ => false,
            },
    {
        let id = self.id;
        match answer {
            PlanetToExplorer::SupportedResourceResponse { resource_list } => {
                (Some(ExplorerToOrchestrator::SupportedResourceResult { explorer_id: id, supported_resources: resource_list }), Ok(()))
            },
            PlanetToExplorer::SupportedCombinationResponse { combination_list } => {
                (Some(ExplorerToOrchestrator::SupportedCombinationResult { explorer_id: id, combination_list }), Ok(()))
            },
            PlanetToExplorer::GenerateResourceResponse { resource } => {
                let res = self.process_generate_response(resource);
                match res {
                    Ok(()) => (Some(ExplorerToOrchestrator::GenerateResourceResponse { explorer_id: id, generated: Ok(()) }), Ok(())),
                    Err(m) => (None, Err(m)),
                }
            },
            PlanetToExplorer::CombineResourceResponse { complex_response } => {
                let res = self.process_combine_response(complex_response);
                match res {
                    Ok(()) => (Some(ExplorerToOrchestrator::CombineResourceResponse { explorer_id: id, generated: Ok(()) }), Ok(())),
                    Err(m) => (None, Err(m)),
                }
            },
            PlanetToExplorer::AvailableEnergyCellResponse { .. } => {
                proof {
                    assert(false);
                }
                (None, Ok(()))
            },
            PlanetToExplorer::Stopped => {
                proof {
                    assert(false);
                }
                (None, Ok(()))
            },
        }
    }
}

} // verus!
