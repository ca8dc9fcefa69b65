//! Program points and the order between them.
//!
//! A live range is a set of program points, so everything that is said about it is
//! said relative to a linear order of the points of one function. The order is an
//! interface: any layout of blocks and instructions that keeps the laws below can
//! stand behind it.

use crate::entity::{Ebb, Inst};
use std::cmp::Ordering;
use vstd::prelude::*;

verus! {

/// A position in a function: an instruction or the header of a block.
#[derive(Copy, Clone, PartialEq, Eq, Structural, Debug)]
pub enum ProgramPoint {
    /// An instruction in the function.
    Inst(Inst),
    /// A block header.
    Ebb(Ebb),
}

impl From<Inst> for ProgramPoint {
    fn from(inst: Inst) -> (r: ProgramPoint) {
        ProgramPoint::Inst(inst)
    }
}

impl vstd::std_specs::convert::FromSpecImpl<Inst> for ProgramPoint {
    open spec fn obeys_from_spec() -> bool {
        true
    }

    open spec fn from_spec(inst: Inst) -> ProgramPoint {
        ProgramPoint::Inst(inst)
    }
}

impl From<Ebb> for ProgramPoint {
    fn from(ebb: Ebb) -> (r: ProgramPoint) {
        ProgramPoint::Ebb(ebb)
    }
}

impl vstd::std_specs::convert::FromSpecImpl<Ebb> for ProgramPoint {
    open spec fn obeys_from_spec() -> bool {
        true
    }

    open spec fn from_spec(ebb: Ebb) -> ProgramPoint {
        ProgramPoint::Ebb(ebb)
    }
}

/// A linear order of the program points of one function.
///
/// `seq` gives every program point a position, and points are compared by position.
/// `inst_ebb` names the block that an inserted instruction belongs to, `has_ebb`
/// says which blocks are inserted, and `ebb_gap` says that the block of an
/// instruction is directly followed by a given block.
///
/// The four laws say that the inserted points form a sequence of blocks, each a
/// header followed by its own instructions.
pub trait ProgramOrder {
    /// The position of `pp`.
    spec fn seq(&self, pp: ProgramPoint) -> int;

    /// The block that holds `inst`, if `inst` is inserted in the layout.
    spec fn inst_ebb(&self, inst: Inst) -> Option<Ebb>;

    /// Is `ebb` inserted in the layout?
    spec fn has_ebb(&self, ebb: Ebb) -> bool;

    /// Is `ebb` the block that directly follows the block of `inst`?
    spec fn ebb_gap(&self, inst: Inst, ebb: Ebb) -> bool;

    /// An inserted instruction comes after the header of its block, which is inserted too.
    proof fn lemma_inst_after_header(&self, inst: Inst)
        requires
            self.inst_ebb(inst) is Some,
        ensures
            self.has_ebb(self.inst_ebb(inst).unwrap()),
            self.seq(ProgramPoint::Ebb(self.inst_ebb(inst).unwrap())) < self.seq(
                ProgramPoint::Inst(inst),
            ),
    ;

    /// An inserted instruction comes before the header of every block that follows its own.
    proof fn lemma_inst_before_later_header(&self, inst: Inst, later: Ebb)
        requires
            self.inst_ebb(inst) is Some,
            self.has_ebb(later),
            self.seq(ProgramPoint::Ebb(self.inst_ebb(inst).unwrap())) < self.seq(
                ProgramPoint::Ebb(later),
            ),
        ensures
            self.seq(ProgramPoint::Inst(inst)) < self.seq(ProgramPoint::Ebb(later)),
    ;

    /// Two inserted blocks at the same position are the same block.
    proof fn lemma_headers_distinct(&self, a: Ebb, b: Ebb)
        requires
            self.has_ebb(a),
            self.has_ebb(b),
            self.seq(ProgramPoint::Ebb(a)) == self.seq(ProgramPoint::Ebb(b)),
        ensures
            a == b,
    ;

    /// Across a gap, the second block follows the block of the instruction with no
    /// inserted block in between.
    proof fn lemma_gap_is_tight(&self, inst: Inst, ebb: Ebb, other: Ebb)
        requires
            self.ebb_gap(inst, ebb),
            self.has_ebb(other),
        ensures
            self.inst_ebb(inst) is Some,
            self.has_ebb(ebb),
            self.seq(ProgramPoint::Ebb(self.inst_ebb(inst).unwrap())) < self.seq(
                ProgramPoint::Ebb(ebb),
            ),
            !(self.seq(ProgramPoint::Ebb(self.inst_ebb(inst).unwrap())) < self.seq(
                ProgramPoint::Ebb(other),
            ) && self.seq(ProgramPoint::Ebb(other)) < self.seq(ProgramPoint::Ebb(ebb))),
    ;

    /// Compare the positions of two program points.
    fn compare(&self, a: ProgramPoint, b: ProgramPoint) -> (r: Ordering)
        ensures
            (match r {
                Ordering::Less => self.seq(a) < self.seq(b),
                Ordering::Equal => self.seq(a) == self.seq(b),
                Ordering::Greater => self.seq(a) > self.seq(b),
            }),
    ;

    /// Is the range from `inst` to `ebb` just the gap between two consecutive blocks?
    fn is_ebb_gap(&self, inst: Inst, ebb: Ebb) -> (r: bool)
        ensures
            r == self.ebb_gap(inst, ebb),
    ;
}

/// The block that a program point lies in, if the point is inserted in `order`.
pub open spec fn pp_ebb<PO: ProgramOrder>(order: &PO, pp: ProgramPoint) -> Option<Ebb> {
    match pp {
        ProgramPoint::Inst(inst) => order.inst_ebb(inst),
        ProgramPoint::Ebb(ebb) => if order.has_ebb(ebb) {
            Some(ebb)
        } else {
            None
        },
    }
}

/// Does `a` come strictly before `b`?
pub fn precedes<PO: ProgramOrder>(order: &PO, a: ProgramPoint, b: ProgramPoint) -> (r: bool)
    ensures
        r == (order.seq(a) < order.seq(b)),
{
    match order.compare(a, b) {
        Ordering::Less => true,
        _ => false,
    }
}

/// The order of program points by their numbers, with ten numbers to a block.
///
/// A block has a number that is a multiple of ten, and its instructions have
/// the nine numbers that follow. The instruction whose number ends in 1 is
/// taken to end its block, so that the next block follows it across a gap.
///
/// This is the order of a function whose layout is the order of its numbers. It
/// needs no tables, which makes it the order to use where a live range is
/// built by hand.
pub struct DecimalOrder {}

/// The number of a program point.
pub open spec fn point_number(pp: ProgramPoint) -> int {
    match pp {
        ProgramPoint::Inst(inst) => inst.0 as int,
        ProgramPoint::Ebb(ebb) => ebb.0 as int,
    }
}

/// The number of a program point.
fn number_of(pp: ProgramPoint) -> (r: u32)
    ensures
        r == point_number(pp),
{
    match pp {
        ProgramPoint::Inst(inst) => inst.0,
        ProgramPoint::Ebb(ebb) => ebb.0,
    }
}

impl ProgramOrder for DecimalOrder {
    open spec fn seq(&self, pp: ProgramPoint) -> int {
        point_number(pp)
    }

    open spec fn inst_ebb(&self, inst: Inst) -> Option<Ebb> {
        if inst.0 % 10 != 0 {
            Some(Ebb((inst.0 - inst.0 % 10) as u32))
        } else {
            None
        }
    }

    open spec fn has_ebb(&self, ebb: Ebb) -> bool {
        ebb.0 % 10 == 0
    }

    open spec fn ebb_gap(&self, inst: Inst, ebb: Ebb) -> bool {
        inst.0 % 10 == 1 && ebb.0 % 10 == 0 && ebb.0 / 10 == inst.0 / 10 + 1
    }

    proof fn lemma_inst_after_header(&self, inst: Inst) {
    }

    proof fn lemma_inst_before_later_header(&self, inst: Inst, later: Ebb) {
    }

    proof fn lemma_headers_distinct(&self, a: Ebb, b: Ebb) {
    }

    proof fn lemma_gap_is_tight(&self, inst: Inst, ebb: Ebb, other: Ebb) {
    }

    fn compare(&self, a: ProgramPoint, b: ProgramPoint) -> (r: Ordering) {
        let x = number_of(a);
        let y = number_of(b);
        if x < y {
            Ordering::Less
        } else if x == y {
            Ordering::Equal
        } else {
            Ordering::Greater
        }
    }

    fn is_ebb_gap(&self, inst: Inst, ebb: Ebb) -> (r: bool) {
        inst.0 % 10 == 1 && ebb.0 % 10 == 0 && ebb.0 / 10 == inst.0 / 10 + 1
    }
}

} // verus!
