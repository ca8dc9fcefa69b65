//! The layout of a function: its blocks and their instructions, in order.
//!
//! A layout is a sequence of program points. It begins with the header of a
//! block, and every header is followed by the instructions of its block. Each
//! program point has one place in it, which gives the order of the program
//! points of the function.

use crate::entity::{Ebb, Inst};
use crate::progpoint::{ProgramOrder, ProgramPoint};
use std::cmp::Ordering;
use vstd::prelude::*;

verus! {

/// The layout of a function.
pub struct Layout {
    /// The program points in the order of the layout.
    points: Vec<ProgramPoint>,
    /// For each instruction, by its number, its place in the layout, counted
    /// from one; zero where it is not inserted.
    inst_place: Vec<usize>,
    /// The same for the blocks.
    ebb_place: Vec<usize>,
}

/// The place that a table of places gives for a number: zero where the table
/// does not reach.
pub open spec fn place_in(table: Seq<usize>, number: u32) -> int {
    if number < table.len() {
        table[number as int] as int
    } else {
        0
    }
}

/// The block whose header is the last one at or before place `k` of a
/// sequence of program points that begins with a header.
pub open spec fn header_before(points: Seq<ProgramPoint>, k: int) -> Ebb
    decreases k,
{
    if k < 0 || k >= points.len() {
        Ebb(0)
    } else {
        match points[k] {
            ProgramPoint::Ebb(ebb) => ebb,
            ProgramPoint::Inst(_) => if k == 0 {
                Ebb(0)
            } else {
                header_before(points, k - 1)
            },
        }
    }
}

/// Do the tables of places say where the program points stand, and nothing
/// else, and does the sequence begin with a header?
pub open spec fn places_agree(
    points: Seq<ProgramPoint>,
    inst_place: Seq<usize>,
    ebb_place: Seq<usize>,
) -> bool {
    &&& points.len() > 0 ==> points[0] is Ebb
    &&& forall|k: int|
        0 <= k < points.len() ==> match #[trigger] points[k] {
            ProgramPoint::Inst(inst) => place_in(inst_place, inst.0) == k + 1,
            ProgramPoint::Ebb(ebb) => place_in(ebb_place, ebb.0) == k + 1,
        }
    &&& forall|i: int|
        0 <= i < inst_place.len() && #[trigger] inst_place[i] != 0 ==> inst_place[i] <= points.len()
            && points[inst_place[i] - 1] == ProgramPoint::Inst(Inst(i as u32))
    &&& forall|i: int|
        0 <= i < ebb_place.len() && #[trigger] ebb_place[i] != 0 ==> ebb_place[i] <= points.len()
            && points[ebb_place[i] - 1] == ProgramPoint::Ebb(Ebb(i as u32))
}

/// The header before a place stands at or before it, and only instructions
/// stand between the two.
proof fn lemma_header_before(points: Seq<ProgramPoint>, k: int) -> (j: int)
    requires
        0 <= k < points.len(),
        points[0] is Ebb,
    ensures
        0 <= j <= k,
        points[j] == ProgramPoint::Ebb(header_before(points, k)),
        forall|m: int| j < m <= k ==> #[trigger] points[m] is Inst,
    decreases k,
{
    match points[k] {
        ProgramPoint::Ebb(_) => k,
        ProgramPoint::Inst(_) => lemma_header_before(points, k - 1),
    }
}

impl View for Layout {
    type V = Seq<ProgramPoint>;

    closed spec fn view(&self) -> Seq<ProgramPoint> {
        self.points@
    }
}

impl Layout {
    /// The invariant of a layout.
    #[verifier::type_invariant]
    pub closed spec fn wf(&self) -> bool {
        places_agree(self.points@, self.inst_place@, self.ebb_place@)
    }

    /// The place of a program point in the layout, counted from one; zero
    /// where it is not inserted.
    pub closed spec fn place(&self, pp: ProgramPoint) -> int {
        match pp {
            ProgramPoint::Inst(inst) => place_in(self.inst_place@, inst.0),
            ProgramPoint::Ebb(ebb) => place_in(self.ebb_place@, ebb.0),
        }
    }

    /// Is the program point inserted in the layout?
    pub open spec fn is_inserted(&self, pp: ProgramPoint) -> bool {
        self.place(pp) != 0
    }

    /// In a layout that keeps its invariant, the place of a program point is
    /// where it stands in the sequence, and a point that has no place does not
    /// stand in it.
    pub proof fn lemma_place(&self, pp: ProgramPoint)
        requires
            self.wf(),
        ensures
            0 <= self.place(pp) <= self@.len(),
            self.place(pp) != 0 ==> self@[self.place(pp) - 1] == pp,
            forall|k: int| 0 <= k < self@.len() && self@[k] == pp ==> self.place(pp) == k + 1,
    {
        match pp {
            ProgramPoint::Inst(inst) => {
                if inst.0 < self.inst_place@.len() {
                    let p = self.inst_place@[inst.0 as int];
                }
            },
            ProgramPoint::Ebb(ebb) => {
                if ebb.0 < self.ebb_place@.len() {
                    let p = self.ebb_place@[ebb.0 as int];
                }
            },
        }
        assert forall|k: int| 0 <= k < self@.len() && self@[k] == pp implies self.place(pp) == k
            + 1 by {
            let at_k = self.points@[k];
        }
    }

    /// Create a layout without blocks.
    pub fn new() -> (r: Layout)
        ensures
            r.wf(),
            r@ == Seq::<ProgramPoint>::empty(),
    {
        Layout { points: Vec::new(), inst_place: Vec::new(), ebb_place: Vec::new() }
    }

    /// The number of program points in the layout.
    pub fn len(&self) -> (r: usize)
        ensures
            r == self@.len(),
    {
        self.points.len()
    }

    /// The place of a program point, counted from one; zero where it is not
    /// inserted.
    fn place_of(&self, pp: ProgramPoint) -> (r: usize)
        ensures
            r == self.place(pp),
            self.wf(),
    {
        proof {
            use_type_invariant(self);
        }
        match pp {
            ProgramPoint::Inst(inst) => {
                let n = inst.0 as usize;
                if n < self.inst_place.len() {
                    self.inst_place[n]
                } else {
                    0
                }
            },
            ProgramPoint::Ebb(ebb) => {
                let n = ebb.0 as usize;
                if n < self.ebb_place.len() {
                    self.ebb_place[n]
                } else {
                    0
                }
            },
        }
    }

    /// Is the program point inserted in the layout?
    pub fn contains(&self, pp: ProgramPoint) -> (r: bool)
        ensures
            r == self.is_inserted(pp),
            self.wf(),
    {
        self.place_of(pp) != 0
    }
}

/// A table of places with the place of number `number` set to `place`; the
/// table is made longer with zeros where it does not reach.
fn with_place(table: Vec<usize>, number: u32, place: usize) -> (r: Vec<usize>)
    ensures
        r@.len() >= table@.len(),
        r@.len() > number,
        forall|i: int|
            0 <= i < r@.len() ==> #[trigger] r@[i] == (if i == number {
                place
            } else if i < table@.len() {
                table@[i]
            } else {
                0usize
            }),
{
    let mut table = table;
    let ghost before = table@;
    while table.len() <= number as usize
        invariant
            table@.len() >= before.len(),
            forall|i: int|
                0 <= i < table@.len() ==> #[trigger] table@[i] == (if i < before.len() {
                    before[i]
                } else {
                    0usize
                }),
        decreases number + 1 - table@.len(),
    {
        table.push(0);
    }
    table.set(number as usize, place);
    table
}

impl Layout {
    /// Add a block at the end of the layout.
    #[verifier::rlimit(40)]
    pub fn append_ebb(self, ebb: Ebb) -> (r: Layout)
        requires
            !self.is_inserted(ProgramPoint::Ebb(ebb)),
            self@.len() < usize::MAX,
        ensures
            r.wf(),
            r@ == self@.push(ProgramPoint::Ebb(ebb)),
            r.place(ProgramPoint::Ebb(ebb)) == self@.len() + 1,
            forall|pp: ProgramPoint|
                pp != ProgramPoint::Ebb(ebb) ==> r.place(pp) == self.place(pp),
    {
        proof {
            use_type_invariant(&self);
        }
        let ghost old_points = self.points@;
        let ghost old_insts = self.inst_place@;
        let ghost old_ebbs = self.ebb_place@;
        let Layout { points, inst_place, ebb_place } = self;
        let mut points = points;
        let place = points.len() + 1;
        points.push(ProgramPoint::Ebb(ebb));
        let ebb_place = with_place(ebb_place, ebb.0, place);
        proof {
            assert forall|k: int| 0 <= k < points@.len() implies match #[trigger] points@[k] {
                ProgramPoint::Inst(inst) => place_in(inst_place@, inst.0) == k + 1,
                ProgramPoint::Ebb(e) => place_in(ebb_place@, e.0) == k + 1,
            } by {
                if k < old_points.len() {
                    let at_k = old_points[k];
                }
            }
            assert forall|i: int| 0 <= i < ebb_place@.len() && #[trigger] ebb_place@[i]
                != 0 implies ebb_place@[i] <= points@.len() && points@[ebb_place@[i] - 1]
                == ProgramPoint::Ebb(Ebb(i as u32)) by {
                if i != ebb.0 {
                    let p = old_ebbs[i];
                }
            }
            assert forall|i: int| 0 <= i < inst_place@.len() && #[trigger] inst_place@[i]
                != 0 implies inst_place@[i] <= points@.len() && points@[inst_place@[i] - 1]
                == ProgramPoint::Inst(Inst(i as u32)) by {
                let p = old_insts[i];
            }
        }
        let r = Layout { points, inst_place, ebb_place };
        assert forall|pp: ProgramPoint| pp != ProgramPoint::Ebb(ebb) implies r.place(pp)
            == self.place(pp) by {
            match pp {
                ProgramPoint::Ebb(e) => {
                    assert(e.0 != ebb.0);
                },
                ProgramPoint::Inst(_) => {},
            }
        }
        r
    }

    /// Add an instruction at the end of the last block of the layout.
    #[verifier::rlimit(40)]
    pub fn append_inst(self, inst: Inst) -> (r: Layout)
        requires
            !self.is_inserted(ProgramPoint::Inst(inst)),
            0 < self@.len() < usize::MAX,
        ensures
            r.wf(),
            r@ == self@.push(ProgramPoint::Inst(inst)),
            r.place(ProgramPoint::Inst(inst)) == self@.len() + 1,
            forall|pp: ProgramPoint|
                pp != ProgramPoint::Inst(inst) ==> r.place(pp) == self.place(pp),
    {
        proof {
            use_type_invariant(&self);
        }
        let ghost old_points = self.points@;
        let ghost old_insts = self.inst_place@;
        let ghost old_ebbs = self.ebb_place@;
        let Layout { points, inst_place, ebb_place } = self;
        let mut points = points;
        let place = points.len() + 1;
        points.push(ProgramPoint::Inst(inst));
        let inst_place = with_place(inst_place, inst.0, place);
        proof {
            assert forall|k: int| 0 <= k < points@.len() implies match #[trigger] points@[k] {
                ProgramPoint::Inst(i) => place_in(inst_place@, i.0) == k + 1,
                ProgramPoint::Ebb(e) => place_in(ebb_place@, e.0) == k + 1,
            } by {
                if k < old_points.len() {
                    let at_k = old_points[k];
                }
            }
            assert forall|i: int| 0 <= i < inst_place@.len() && #[trigger] inst_place@[i]
                != 0 implies inst_place@[i] <= points@.len() && points@[inst_place@[i] - 1]
                == ProgramPoint::Inst(Inst(i as u32)) by {
                if i != inst.0 {
                    let p = old_insts[i];
                }
            }
            assert forall|i: int| 0 <= i < ebb_place@.len() && #[trigger] ebb_place@[i]
                != 0 implies ebb_place@[i] <= points@.len() && points@[ebb_place@[i] - 1]
                == ProgramPoint::Ebb(Ebb(i as u32)) by {
                let p = old_ebbs[i];
            }
        }
        let r = Layout { points, inst_place, ebb_place };
        assert forall|pp: ProgramPoint| pp != ProgramPoint::Inst(inst) implies r.place(pp)
            == self.place(pp) by {
            match pp {
                ProgramPoint::Inst(i) => {
                    assert(i.0 != inst.0);
                },
                ProgramPoint::Ebb(_) => {},
            }
        }
        r
    }
}

/// Which of two places comes first.
fn place_order(x: usize, y: usize) -> (r: Ordering)
    ensures
        (match r {
            Ordering::Less => x < y,
            Ordering::Equal => x == y,
            Ordering::Greater => x > y,
        }),
{
    if x < y {
        Ordering::Less
    } else if x == y {
        Ordering::Equal
    } else {
        Ordering::Greater
    }
}

/// The order of the program points of a layout is the order of their places.
/// Program points that are not inserted all stand at place zero, before those
/// that are.
impl ProgramOrder for Layout {
    open spec fn seq(&self, pp: ProgramPoint) -> int {
        if self.wf() {
            self.place(pp)
        } else {
            0
        }
    }

    open spec fn inst_ebb(&self, inst: Inst) -> Option<Ebb> {
        if self.wf() && self.place(ProgramPoint::Inst(inst)) != 0 {
            Some(header_before(self@, self.place(ProgramPoint::Inst(inst)) - 1))
        } else {
            None
        }
    }

    open spec fn has_ebb(&self, ebb: Ebb) -> bool {
        self.wf() && self.place(ProgramPoint::Ebb(ebb)) != 0
    }

    open spec fn ebb_gap(&self, inst: Inst, ebb: Ebb) -> bool {
        self.wf() && self.place(ProgramPoint::Inst(inst)) != 0 && self.place(
            ProgramPoint::Ebb(ebb),
        ) == self.place(ProgramPoint::Inst(inst)) + 1
    }

    proof fn lemma_inst_after_header(&self, inst: Inst) {
        let k = self.place(ProgramPoint::Inst(inst)) - 1;
        self.lemma_place(ProgramPoint::Inst(inst));
        self.lemma_begins_with_header();
        let j = lemma_header_before(self@, k);
        self.lemma_place(ProgramPoint::Ebb(header_before(self@, k)));
    }

    proof fn lemma_inst_before_later_header(&self, inst: Inst, later: Ebb) {
        let k = self.place(ProgramPoint::Inst(inst)) - 1;
        self.lemma_place(ProgramPoint::Inst(inst));
        self.lemma_begins_with_header();
        let j = lemma_header_before(self@, k);
        self.lemma_place(ProgramPoint::Ebb(header_before(self@, k)));
        self.lemma_place(ProgramPoint::Ebb(later));
        let m = self.place(ProgramPoint::Ebb(later)) - 1;
        if m <= k {
            assert(self@[m] is Inst);
        }
    }

    proof fn lemma_headers_distinct(&self, a: Ebb, b: Ebb) {
        self.lemma_place(ProgramPoint::Ebb(a));
        self.lemma_place(ProgramPoint::Ebb(b));
    }

    proof fn lemma_gap_is_tight(&self, inst: Inst, ebb: Ebb, other: Ebb) {
        let k = self.place(ProgramPoint::Inst(inst)) - 1;
        self.lemma_place(ProgramPoint::Inst(inst));
        self.lemma_begins_with_header();
        let j = lemma_header_before(self@, k);
        self.lemma_place(ProgramPoint::Ebb(header_before(self@, k)));
        self.lemma_place(ProgramPoint::Ebb(other));
        self.lemma_place(ProgramPoint::Ebb(ebb));
        let m = self.place(ProgramPoint::Ebb(other)) - 1;
        if j < m && m <= k {
            assert(self@[m] is Inst);
        }
    }

    fn compare(&self, a: ProgramPoint, b: ProgramPoint) -> (r: Ordering) {
        place_order(self.place_of(a), self.place_of(b))
    }

    fn is_ebb_gap(&self, inst: Inst, ebb: Ebb) -> (r: bool) {
        let i = self.place_of(ProgramPoint::Inst(inst));
        let e = self.place_of(ProgramPoint::Ebb(ebb));
        proof {
            self.lemma_place(ProgramPoint::Inst(inst));
        }
        i != 0 && e > i && e - i == 1
    }
}

impl Layout {
    /// A layout that keeps its invariant and is not empty begins with a header.
    pub proof fn lemma_begins_with_header(&self)
        requires
            self.wf(),
        ensures
            self@.len() > 0 ==> self@[0] is Ebb,
    {
    }

    /// The block of an instruction that is inserted, and none for one that is not.
    pub fn inst_block(&self, inst: Inst) -> (r: Option<Ebb>)
        ensures
            r == self.inst_ebb(inst),
    {
        let place = self.place_of(ProgramPoint::Inst(inst));
        if place == 0 {
            return None;
        }
        proof {
            self.lemma_place(ProgramPoint::Inst(inst));
            self.lemma_begins_with_header();
        }
        let mut k: usize = place - 1;
        loop
            invariant
                self.wf(),
                k < self@.len(),
                self@[0] is Ebb,
                place != 0,
                place == self.place(ProgramPoint::Inst(inst)),
                header_before(self@, k as int) == header_before(self@, place - 1),
            decreases k,
        {
            match self.points[k] {
                ProgramPoint::Ebb(ebb) => {
                    return Some(ebb);
                },
                ProgramPoint::Inst(_) => {
                    assert(k > 0);
                    k -= 1;
                },
            }
        }
    }
}

} // verus!
