//! The planet's own decisions: what to do with a sunray, how to meet an
//! asteroid and how to answer explorers, on a picture of the planet's
//! energy cells and rocket. The caller applies the decisions to the real
//! planet.

use vstd::prelude::*;
use crate::resources::{BasicResourceType, ComplexResourceType};

verus! {

/// What the planet's decisions read of its state: which energy cells are
/// charged, whether a rocket is built, and whether the planet's type allows
/// rockets.
pub struct PlanetModel {
    pub cells: Vec<bool>,
    pub has_rocket: bool,
    pub can_have_rocket: bool,
}

/// `i` is the first cell whose charge is `charged`.
pub open spec fn is_first_cell(cells: Seq<bool>, charged: bool, i: int) -> bool {
    &&& 0 <= i < cells.len()
    &&& cells[i] == charged
    &&& forall|j: int| 0 <= j < i ==> cells[j] != charged
}

/// The first cell whose charge is `charged`, if any.
pub open spec fn first_cell(cells: Seq<bool>, charged: bool) -> Option<int> {
    if exists|i: int| #[trigger] is_first_cell(cells, charged, i) {
        Some(choose|i: int| #[trigger] is_first_cell(cells, charged, i))
    } else {
        None
    }
}

/// The index of the first cell whose charge is `charged`.
fn find_cell(cells: &Vec<bool>, charged: bool) -> (r: Option<usize>)
    ensures
        match r {
            Some(i) => is_first_cell(cells@, charged, i as int),
            None => forall|j: int| 0 <= j < cells@.len() ==> cells@[j] != charged,
        },
{
    let mut i: usize = 0;
    while i < cells.len()
        invariant
            i <= cells@.len(),
            forall|j: int| 0 <= j < i ==> cells@[j] != charged,
        decreases cells@.len() - i,
    {
        if cells[i] == charged {
            return Some(i);
        }
        i = i + 1;
    }
    None
}

proof fn lemma_first_cell(cells: Seq<bool>, charged: bool, r: Option<usize>)
    requires
        match r {
            Some(i) => is_first_cell(cells, charged, i as int),
            None => forall|j: int| 0 <= j < cells.len() ==> cells[j] != charged,
        },
    ensures
        first_cell(cells, charged) == match r {
            Some(i) => Some(i as int),
            None => None::<int>,
        },
{
    match r {
        Some(i) => {
            assert(is_first_cell(cells, charged, i as int));
            let k = choose|k: int| #[trigger] is_first_cell(cells, charged, k);
            if k < i {
                assert(cells[k] != charged);
            }
            if i < k {
                assert(cells[i as int] != charged);
            }
        },
        None => {
            assert forall|k: int| !#[trigger] is_first_cell(cells, charged, k) by {
                if 0 <= k < cells.len() {
                    assert(cells[k] != charged);
                }
            }
        },
    }
}

/// A cell with the given charge makes some cell the first with it.
pub proof fn lemma_some_first_cell(cells: Seq<bool>, charged: bool, k: int)
    requires
        0 <= k < cells.len(),
        cells[k] == charged,
    ensures
        first_cell(cells, charged) is Some,
    decreases k,
{
    if forall|j: int| 0 <= j < k ==> cells[j] != charged {
        assert(is_first_cell(cells, charged, k));
    } else {
        let j = choose|j: int| 0 <= j < k && cells[j] == charged;
        lemma_some_first_cell(cells, charged, j);
    }
}

/// What the planet does with a sunray: the cell it charges and the cell a
/// rocket is built with.
#[derive(Clone, Copy, Debug, PartialEq, Eq, Structural)]
pub struct SunrayPlan {
    pub charge: Option<usize>,
    pub build_rocket_with: Option<usize>,
}

/// The cells after the first empty one is charged (none is when all are).
pub open spec fn charged_first_empty(cells: Seq<bool>) -> Seq<bool> {
    match first_cell(cells, false) {
        Some(i) => cells.update(i, true),
        None => cells,
    }
}

/// The planet after trying to build a rocket with its first charged cell:
/// the rocket is built, and the cell spent, only when the planet may have a
/// rocket, has none yet, and has a charged cell.
pub open spec fn after_rocket_attempt(cells: Seq<bool>, has_rocket: bool, can_have_rocket: bool) -> (Seq<bool>, bool) {
    match first_cell(cells, true) {
        Some(i) => if can_have_rocket && !has_rocket {
            (cells.update(i, false), true)
        } else {
            (cells, has_rocket)
        },
        None => (cells, has_rocket),
    }
}

/// The planet's AI.
pub struct RustyCrabPlanetAI;

impl RustyCrabPlanetAI {
    pub fn new() -> (ai: Self) {
        RustyCrabPlanetAI
    }

    /// A sunray charges the first empty cell, if any; then, without a
    /// rocket, a rocket is built with the first charged cell, if any.
    pub fn handle_sunray(&mut self, state: &mut PlanetModel) -> (plan: SunrayPlan)
        ensures
            final(state).can_have_rocket == old(state).can_have_rocket,
            plan.charge == match first_cell(old(state).cells@, false) {
                Some(i) => Some(i as usize),
                None => None::<usize>,
            },
            ({
                let charged = charged_first_empty(old(state).cells@);
                &&& plan.build_rocket_with == if old(state).has_rocket {
                    None::<usize>
                } else {
                    match first_cell(charged, true) {
                        Some(i) => Some(i as usize),
                        None => None::<usize>,
                    }
                }
                &&& (final(state).cells@, final(state).has_rocket) == if old(state).has_rocket {
                    (charged, true)
                } else {
                    after_rocket_attempt(charged, false, old(state).can_have_rocket)
                }
            }),
    {
        let ghost cells0 = state.cells@;
        let empty = find_cell(&state.cells, false);
        proof {
            lemma_first_cell(cells0, false, empty);
        }
        match empty {
            Some(i) => state.cells.set(i, true),
            None => {},
        }
        proof {
            assert(state.cells@ == charged_first_empty(cells0));
        }
        let mut build = None;
        if !state.has_rocket {
            let ghost charged = state.cells@;
            let full = find_cell(&state.cells, true);
            proof {
                lemma_first_cell(charged, true, full);
            }
            match full {
                Some(i) => {
                    build = Some(i);
                    if state.can_have_rocket {
                        state.cells.set(i, false);
                        state.has_rocket = true;
                    }
                },
                None => {},
            }
        }
        SunrayPlan { charge: empty, build_rocket_with: build }
    }

    /// An asteroid: without a rocket, one is built with the first charged
    /// cell, if any; then the rocket, if there is one, is launched. Returns
    /// whether a rocket was launched (the planet survives), and the cell a
    /// rocket was built with.
    pub fn handle_asteroid(&mut self, state: &mut PlanetModel) -> (r: (bool, Option<usize>))
        ensures
            final(state).can_have_rocket == old(state).can_have_rocket,
            !final(state).has_rocket,
            r.1 == if old(state).has_rocket {
                None::<usize>
            } else {
                match first_cell(old(state).cells@, true) {
                    Some(i) => Some(i as usize),
                    None => None::<usize>,
                }
            },
            ({
                let (cells1, rocket1) = if old(state).has_rocket {
                    (old(state).cells@, true)
                } else {
                    after_rocket_attempt(old(state).cells@, false, old(state).can_have_rocket)
                };
                &&& final(state).cells@ == cells1
                &&& r.0 == rocket1
            }),
    {
        let mut build = None;
        if !state.has_rocket {
            let ghost cells0 = state.cells@;
            let full = find_cell(&state.cells, true);
            proof {
                lemma_first_cell(cells0, true, full);
            }
            match full {
                Some(i) => {
                    build = Some(i);
                    if state.can_have_rocket {
                        state.cells.set(i, false);
                        state.has_rocket = true;
                    }
                },
                None => {},
            }
        }
        let launched = state.has_rocket;
        state.has_rocket = false;
        (launched, build)
    }

    /// The number of available energy cells the planet tells an explorer.
    pub fn available_cells_reply(&self) -> (n: u32)
        ensures
            n == 1,
    {
        1
    }

    /// The cell to spend on an explorer's request the planet takes up
    /// (`accepted`): the first charged one; none when the request is not
    /// taken up or no cell is charged.
    pub fn cell_to_spend(&mut self, state: &mut PlanetModel, accepted: bool) -> (r: Option<usize>)
        ensures
            final(state).has_rocket == old(state).has_rocket,
            final(state).can_have_rocket == old(state).can_have_rocket,
            r == if accepted {
                match first_cell(old(state).cells@, true) {
                    Some(i) => Some(i as usize),
                    None => None::<usize>,
                }
            } else {
                None::<usize>
            },
            final(state).cells@ == match r {
                Some(i) => old(state).cells@.update(i as int, false),
                None => old(state).cells@,
            },
    {
        if !accepted {
            return None;
        }
        let ghost cells0 = state.cells@;
        let full = find_cell(&state.cells, true);
        proof {
            lemma_first_cell(cells0, true, full);
        }
        match full {
            Some(i) => {
                state.cells.set(i, false);
                Some(i)
            },
            None => None,
        }
    }
}

/// The planet this crate fields: its id, the basic resources it generates
/// and the complex resources it combines.
pub fn planet_rules() -> (r: (u32, Vec<BasicResourceType>, Vec<ComplexResourceType>))
    ensures
        r.0 == 96,
        r.1@ == seq![BasicResourceType::Carbon],
        r.2@ == seq![
            ComplexResourceType::Diamond,
            ComplexResourceType::Water,
            ComplexResourceType::Life,
            ComplexResourceType::Robot,
            ComplexResourceType::Dolphin,
            ComplexResourceType::AIPartner,
        ],
{
    let gen = vec![BasicResourceType::Carbon];
    let comb = vec![
        ComplexResourceType::Diamond,
        ComplexResourceType::Water,
        ComplexResourceType::Life,
        ComplexResourceType::Robot,
        ComplexResourceType::Dolphin,
        ComplexResourceType::AIPartner,
    ];
    (96, gen, comb)
}

} // verus!
