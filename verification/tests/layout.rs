use cretonne::affinity::Affinity;
use cretonne::entity::{Ebb, Inst, Value};
use cretonne::layout::Layout;
use cretonne::liverange::{Interval, LiveRange};
use cretonne::progpoint::{ProgramOrder, ProgramPoint};
use std::cmp::Ordering;

fn inst(n: usize) -> ProgramPoint {
    ProgramPoint::Inst(Inst::new(n))
}

fn ebb(n: usize) -> ProgramPoint {
    ProgramPoint::Ebb(Ebb::new(n))
}

// Blocks 3, 1, 2 in this order, with instructions whose numbers say nothing
// about where they stand.
fn layout() -> Layout {
    Layout::new()
        .append_ebb(Ebb::new(3))
        .append_inst(Inst::new(9))
        .append_inst(Inst::new(4))
        .append_ebb(Ebb::new(1))
        .append_inst(Inst::new(7))
        .append_ebb(Ebb::new(2))
        .append_inst(Inst::new(0))
        .append_inst(Inst::new(8))
}

#[test]
fn places_give_the_order() {
    let l = layout();
    assert_eq!(l.len(), 8);
    assert_eq!(l.compare(ebb(3), inst(9)), Ordering::Less);
    assert_eq!(l.compare(inst(9), inst(4)), Ordering::Less);
    assert_eq!(l.compare(inst(4), ebb(1)), Ordering::Less);
    assert_eq!(l.compare(inst(8), inst(0)), Ordering::Greater);
    assert_eq!(l.compare(ebb(2), ebb(3)), Ordering::Greater);
    assert_eq!(l.compare(inst(7), inst(7)), Ordering::Equal);
    // What is not inserted stands before everything else.
    assert_eq!(l.compare(inst(5), ebb(3)), Ordering::Less);
    assert_eq!(l.compare(inst(5), ebb(77)), Ordering::Equal);
    assert!(l.contains(inst(0)));
    assert!(l.contains(ebb(1)));
    assert!(!l.contains(inst(1)));
    assert!(!l.contains(ebb(0)));
    assert!(!l.contains(ebb(1000)));
}

#[test]
fn gaps_and_blocks() {
    let l = layout();
    assert!(l.is_ebb_gap(Inst::new(4), Ebb::new(1)));
    assert!(l.is_ebb_gap(Inst::new(7), Ebb::new(2)));
    assert!(!l.is_ebb_gap(Inst::new(9), Ebb::new(1)));
    assert!(!l.is_ebb_gap(Inst::new(4), Ebb::new(2)));
    assert!(!l.is_ebb_gap(Inst::new(8), Ebb::new(3)));
    assert!(!l.is_ebb_gap(Inst::new(5), Ebb::new(3)));
    assert!(!l.is_ebb_gap(Inst::new(5), Ebb::new(6)));
    assert_eq!(l.inst_block(Inst::new(9)), Some(Ebb::new(3)));
    assert_eq!(l.inst_block(Inst::new(4)), Some(Ebb::new(3)));
    assert_eq!(l.inst_block(Inst::new(7)), Some(Ebb::new(1)));
    assert_eq!(l.inst_block(Inst::new(8)), Some(Ebb::new(2)));
    assert_eq!(l.inst_block(Inst::new(5)), None);
    let empty = Layout::new();
    assert_eq!(empty.len(), 0);
    assert_eq!(empty.inst_block(Inst::new(0)), None);
    assert_eq!(empty.compare(inst(0), ebb(0)), Ordering::Equal);
}

#[test]
fn live_range_over_a_layout() {
    let l = layout();
    // Defined at instruction 9 in block 3, used in blocks 1 and 2.
    let mut lr = LiveRange::new(Value::new(0), inst(9), Affinity::default());
    assert!(!lr.extend_in_ebb(Ebb::new(3), Inst::new(4), &l));
    assert_eq!(lr.def_local_end(), inst(4));
    assert!(lr.extend_in_ebb(Ebb::new(2), Inst::new(0), &l));
    assert!(lr.extend_in_ebb(Ebb::new(1), Inst::new(7), &l));
    // Block 2 follows the last instruction of block 1: one interval.
    assert_eq!(lr.liveins(), &[Interval { begin: Ebb::new(1), end: Inst::new(0) }][..]);
    assert!(!lr.extend_in_ebb(Ebb::new(2), Inst::new(8), &l));
    assert_eq!(lr.livein_local_end(Ebb::new(1), &l), Some(Inst::new(8)));
    assert_eq!(lr.livein_local_end(Ebb::new(3), &l), None);
    assert!(lr.reaches_use(Inst::new(4), Ebb::new(3), &l));
    assert!(lr.killed_at(Inst::new(8), Ebb::new(2), &l));
    assert!(lr.overlaps_def(ebb(2), Ebb::new(2), &l));
}
