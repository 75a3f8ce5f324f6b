//! Working the current planet during a turn: with the planet's charged
//! cells, first combine what is wanted and possible, in the order the
//! planet lists its combinations, then generate the basic resources the goal
//! still wants, one cell each. The caller asks the planet and sends the
//! requests; each step says what to do next.

use vstd::prelude::*;
use crate::cetto::explorer::{combinable, CettoExplorer};
use crate::resources::{BasicResourceType, ComplexResourceType, ResourceType};

verus! {

/// How far the work on the current planet has got: the cells left, the
/// planet's combinations and basic resources once asked for, and the next
/// entry of each list to consider.
pub struct ExploitCursor {
    pub cells: u32,
    pub complex: Option<Vec<ComplexResourceType>>,
    pub next_complex: usize,
    pub basic: Option<Vec<BasicResourceType>>,
    pub next_basic: usize,
}

/// What to do next on the current planet.
#[derive(Clone, Copy, Debug, PartialEq, Eq, Structural)]
pub enum ExploitStep {
    /// Ask the planet which combinations it supports and hand the list to
    /// the cursor.
    AskComplexTypes,
    /// Ask the planet which basic resources it generates and hand the list
    /// to the cursor.
    AskBasicTypes,
    /// Combine this resource (one cell is spent).
    Combine(ComplexResourceType),
    /// Generate this resource (one cell is spent).
    Generate(BasicResourceType),
    /// The work on this planet is over.
    Done,
}

/// The goal still wants basic resource `b`, and a cell is left.
pub open spec fn wanted<T>(e: CettoExplorer<T>, b: BasicResourceType, cells: u32) -> bool {
    e.knowledge.goal.goal()[ResourceType::Basic(b)] != 0 && cells > 0
}

/// `j` is the first entry from `from` on that is worth combining.
pub open spec fn first_combinable<T>(e: CettoExplorer<T>, list: Seq<ComplexResourceType>, from: int, cells: u32, j: int) -> bool {
    &&& from <= j < list.len()
    &&& combinable(e, list[j], cells)
    &&& forall|k: int| from <= k < j ==> !combinable(e, #[trigger] list[k], cells)
}

/// `j` is the first entry from `from` on that the goal still wants.
pub open spec fn first_wanted<T>(e: CettoExplorer<T>, list: Seq<BasicResourceType>, from: int, cells: u32, j: int) -> bool {
    &&& from <= j < list.len()
    &&& wanted(e, list[j], cells)
    &&& forall|k: int| from <= k < j ==> !wanted(e, #[trigger] list[k], cells)
}

impl ExploitCursor {
    /// The next entries to consider lie within the lists.
    pub open spec fn wf(&self) -> bool {
        &&& self.complex matches Some(l) ==> self.next_complex <= l@.len()
        &&& self.basic matches Some(l) ==> self.next_basic <= l@.len()
    }

    /// The work on a planet with `cells` charged cells, before asking it
    /// anything else.
    pub fn new(cells: u32) -> (c: Self)
        ensures
            c.wf(),
            c.cells == cells,
            c.complex is None,
            c.next_complex == 0,
            c.basic is None,
            c.next_basic == 0,
    {
        ExploitCursor { cells, complex: None, next_complex: 0, basic: None, next_basic: 0 }
    }
}

/// What `next_exploit_step` does, from cursor `c0` to cursor `c1`.
pub open spec fn exploit_post<T>(e: CettoExplorer<T>, c0: ExploitCursor, c1: ExploitCursor, r: ExploitStep) -> bool {
    match c0.complex {
        None => {
            &&& c1 == c0
            &&& r == if c0.cells == 0 { ExploitStep::Done } else { ExploitStep::AskComplexTypes }
        },
        Some(cl) => {
            let from = c0.next_complex as int;
            if exists|j: int| #[trigger] first_combinable(e, cl@, from, c0.cells, j) {
                exists|j: int| #[trigger] first_combinable(e, cl@, from, c0.cells, j) && {
                    &&& r == ExploitStep::Combine(cl@[j])
                    &&& c1 == ExploitCursor { cells: (c0.cells - 1) as u32, next_complex: (j + 1) as usize, ..c0 }
                }
            } else if c0.cells == 0 {
                &&& r == ExploitStep::Done
                &&& c1 == ExploitCursor { next_complex: cl@.len() as usize, ..c0 }
            } else {
                match c0.basic {
                    None => {
                        &&& r == ExploitStep::AskBasicTypes
                        &&& c1 == ExploitCursor { next_complex: cl@.len() as usize, ..c0 }
                    },
                    Some(bl) => {
                        let bfrom = c0.next_basic as int;
                        if exists|j: int| #[trigger] first_wanted(e, bl@, bfrom, c0.cells, j) {
                            exists|j: int| #[trigger] first_wanted(e, bl@, bfrom, c0.cells, j) && {
                                &&& r == ExploitStep::Generate(bl@[j])
                                &&& c1 == ExploitCursor {
                                    cells: (c0.cells - 1) as u32,
                                    next_complex: cl@.len() as usize,
                                    next_basic: (j + 1) as usize,
                                    ..c0
                                }
                            }
                        } else {
                            &&& r == ExploitStep::Done
                            &&& c1 == ExploitCursor { next_complex: cl@.len() as usize, next_basic: bl@.len() as usize, ..c0 }
                        }
                    },
                }
            }
        },
    }
}

impl<T> CettoExplorer<T> {
    /// The next thing to do on the current planet, given how far the work
    /// has got; the cursor moves past what was considered.
    pub fn next_exploit_step(&self, cursor: &mut ExploitCursor) -> (r: ExploitStep)
        requires
            self.wf(),
            old(cursor).wf(),
        ensures
            final(cursor).wf(),
            exploit_post(*self, *old(cursor), *final(cursor), r),
    {
        let ghost c0 = *cursor;
        let n = match &cursor.complex {
            None => {
                if cursor.cells == 0 {
                    return ExploitStep::Done;
                }
                return ExploitStep::AskComplexTypes;
            },
            Some(cl) => cl.len(),
        };
        let ghost cl = c0.complex->0@;
        let mut i = cursor.next_complex;
        while i < n
            invariant
                self.wf(),
                *cursor == c0,
                c0 == *old(cursor),
                c0.wf(),
                c0.complex matches Some(l) && l@ == cl,
                n == cl.len(),
                c0.next_complex <= i <= n,
                forall|k: int| c0.next_complex <= k < i ==> !combinable(*self, #[trigger] cl[k], c0.cells),
            decreases n - i,
        {
            let c = match &cursor.complex {
                Some(cl) => cl[i],
                None => {
                    proof {
                        assert(false);
                    }
                    ComplexResourceType::Water
                },
            };
            if self.can_combine(c, cursor.cells) {
                cursor.cells = cursor.cells - 1;
                cursor.next_complex = i + 1;
                proof {
                    assert(first_combinable(*self, cl, c0.next_complex as int, c0.cells, i as int));
                    assert(*cursor == ExploitCursor { cells: (c0.cells - 1) as u32, next_complex: (i + 1) as usize, ..c0 });
                }
                return ExploitStep::Combine(c);
            }
            i = i + 1;
        }
        proof {
            assert forall|j: int| !first_combinable(*self, cl, c0.next_complex as int, c0.cells, j) by {
                if first_combinable(*self, cl, c0.next_complex as int, c0.cells, j) {
                    assert(!combinable(*self, cl[j], c0.cells));
                }
            }
        }
        cursor.next_complex = n;
        if cursor.cells == 0 {
            return ExploitStep::Done;
        }
        let m = match &cursor.basic {
            None => return ExploitStep::AskBasicTypes,
            Some(bl) => bl.len(),
        };
        let ghost c_mid = *cursor;
        let ghost bl = c0.basic->0@;
        let mut j = cursor.next_basic;
        while j < m
            invariant
                self.wf(),
                *cursor == c_mid,
                c0 == *old(cursor),
                c0.wf(),
                c_mid == (ExploitCursor { next_complex: cl.len() as usize, ..c0 }),
                forall|j: int| !first_combinable(*self, cl, c0.next_complex as int, c0.cells, j),
                c0.complex matches Some(l) && l@ == cl,
                c_mid.basic matches Some(l) && l@ == bl,
                m == bl.len(),
                c0.next_basic <= j <= m,
                c_mid.next_basic == c0.next_basic,
                c_mid.cells == c0.cells,
                forall|k: int| c0.next_basic <= k < j ==> !wanted(*self, #[trigger] bl[k], c0.cells),
            decreases m - j,
        {
            let b = match &cursor.basic {
                Some(bl) => bl[j],
                None => {
                    proof {
                        assert(false);
                    }
                    BasicResourceType::Oxygen
                },
            };
            if self.wants_basic(b, cursor.cells) {
                cursor.cells = cursor.cells - 1;
                cursor.next_basic = j + 1;
                proof {
                    assert(first_wanted(*self, bl, c0.next_basic as int, c0.cells, j as int));
                }
                return ExploitStep::Generate(b);
            }
            j = j + 1;
        }
        proof {
            assert forall|k: int| !first_wanted(*self, bl, c0.next_basic as int, c0.cells, k) by {
                if first_wanted(*self, bl, c0.next_basic as int, c0.cells, k) {
                    assert(!wanted(*self, bl[k], c0.cells));
                }
            }
        }
        cursor.next_basic = m;
        ExploitStep::Done
    }
}

} // verus!
