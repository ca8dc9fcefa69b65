use cretonne::affinity::Affinity;
use cretonne::entity::{Ebb, Inst, Value};
use cretonne::liverange::LiveRange;
use cretonne::progpoint::{DecimalOrder, ProgramOrder, ProgramPoint};
use std::cmp::Ordering;

// The program order of the tests compares entity numbers. Blocks have numbers
// that are multiples of 10, and the instructions of a block have the numbers in
// between. The instruction whose number ends in 1 is taken to end its block.
struct ProgOrder {
    order: DecimalOrder,
}

impl ProgOrder {
    fn compare(&self, a: ProgramPoint, b: ProgramPoint) -> Ordering {
        self.order.compare(a, b)
    }
}

impl ProgOrder {
    fn inst_ebb(&self, inst: Inst) -> Ebb {
        let i = inst.index();
        Ebb::new(i - i % 10)
    }

    fn pp_ebb(&self, pp: ProgramPoint) -> Ebb {
        match pp {
            ProgramPoint::Inst(i) => self.inst_ebb(i),
            ProgramPoint::Ebb(e) => e,
        }
    }

    // Check the invariants of a live range.
    fn validate(&self, lr: &LiveRange) {
        let def_ebb = self.pp_ebb(lr.def());
        assert_eq!(def_ebb, self.pp_ebb(lr.def_local_end()));

        match self.compare(lr.def(), lr.def_local_end()) {
            Ordering::Equal => assert!(lr.liveins().is_empty()),
            Ordering::Greater => panic!("Backwards def interval"),
            Ordering::Less => {}
        }

        let mut prev_end = None;
        for li in lr.liveins() {
            assert_eq!(self.compare(li.begin.into(), li.end.into()), Ordering::Less);
            if let Some(e) = prev_end {
                assert_eq!(self.compare(ProgramPoint::Inst(e), li.begin.into()), Ordering::Less);
            }
            assert!(
                self.compare(lr.def_local_end(), li.begin.into()) == Ordering::Less
                    || self.compare(lr.def(), li.end.into()) == Ordering::Greater,
                "Interval can't overlap the def EBB"
            );
            prev_end = Some(li.end);
        }
    }
}

const HARNESS: &ProgOrder = &ProgOrder { order: DecimalOrder {} };
const PO: &DecimalOrder = &DecimalOrder {};

#[test]
fn dead_def_range() {
    let v0 = Value::new(0);
    let i1 = Inst::new(1);
    let e2 = Ebb::new(2);
    let lr = LiveRange::new(v0, i1.into(), Default::default());
    assert!(lr.is_dead());
    assert!(lr.is_local());
    assert_eq!(lr.def(), i1.into());
    assert_eq!(lr.def_local_end(), i1.into());
    assert_eq!(lr.livein_local_end(e2, PO), None);
    HARNESS.validate(&lr);
}

#[test]
fn dead_arg_range() {
    let v0 = Value::new(0);
    let e2 = Ebb::new(2);
    let lr = LiveRange::new(v0, e2.into(), Default::default());
    assert!(lr.is_dead());
    assert!(lr.is_local());
    assert_eq!(lr.def(), e2.into());
    assert_eq!(lr.def_local_end(), e2.into());
    // The def interval of a block argument does not count as live-in.
    assert_eq!(lr.livein_local_end(e2, PO), None);
    HARNESS.validate(&lr);
}

#[test]
fn local_def() {
    let v0 = Value::new(0);
    let e10 = Ebb::new(10);
    let i11 = Inst::new(11);
    let i12 = Inst::new(12);
    let i13 = Inst::new(13);
    let mut lr = LiveRange::new(v0, i11.into(), Default::default());

    assert_eq!(lr.extend_in_ebb(e10, i13, PO), false);
    HARNESS.validate(&lr);
    assert!(!lr.is_dead());
    assert!(lr.is_local());
    assert_eq!(lr.def(), i11.into());
    assert_eq!(lr.def_local_end(), i13.into());

    // Extending to an instruction that is covered already changes nothing.
    assert_eq!(lr.extend_in_ebb(e10, i12, PO), false);
    HARNESS.validate(&lr);
    assert_eq!(lr.def(), i11.into());
    assert_eq!(lr.def_local_end(), i13.into());
}

#[test]
fn local_arg() {
    let v0 = Value::new(0);
    let e10 = Ebb::new(10);
    let i11 = Inst::new(11);
    let i12 = Inst::new(12);
    let i13 = Inst::new(13);
    let mut lr = LiveRange::new(v0, e10.into(), Default::default());

    // Extending a dead block argument in its own block adds no live-in interval.
    assert_eq!(lr.extend_in_ebb(e10, i12, PO), false);
    HARNESS.validate(&lr);
    assert!(!lr.is_dead());
    assert!(lr.is_local());
    assert_eq!(lr.def(), e10.into());
    assert_eq!(lr.def_local_end(), i12.into());

    // Extending to an instruction that is covered already changes nothing.
    assert_eq!(lr.extend_in_ebb(e10, i11, PO), false);
    HARNESS.validate(&lr);
    assert_eq!(lr.def(), e10.into());
    assert_eq!(lr.def_local_end(), i12.into());

    // Extending further.
    assert_eq!(lr.extend_in_ebb(e10, i13, PO), false);
    HARNESS.validate(&lr);
    assert_eq!(lr.def(), e10.into());
    assert_eq!(lr.def_local_end(), i13.into());
}

#[test]
fn global_def() {
    let v0 = Value::new(0);
    let e10 = Ebb::new(10);
    let i11 = Inst::new(11);
    let i12 = Inst::new(12);
    let e20 = Ebb::new(20);
    let i21 = Inst::new(21);
    let i22 = Inst::new(22);
    let i23 = Inst::new(23);
    let mut lr = LiveRange::new(v0, i11.into(), Default::default());

    assert_eq!(lr.extend_in_ebb(e10, i12, PO), false);

    // Adding a live-in interval.
    assert_eq!(lr.extend_in_ebb(e20, i22, PO), true);
    HARNESS.validate(&lr);
    assert_eq!(lr.livein_local_end(e20, PO), Some(i22));

    // Not extending the live-in.
    assert_eq!(lr.extend_in_ebb(e20, i21, PO), false);
    assert_eq!(lr.livein_local_end(e20, PO), Some(i22));

    // Extending the live-in.
    assert_eq!(lr.extend_in_ebb(e20, i23, PO), false);
    HARNESS.validate(&lr);
    assert_eq!(lr.livein_local_end(e20, PO), Some(i23));
}

#[test]
fn coalesce() {
    let v0 = Value::new(0);
    let i11 = Inst::new(11);
    let e20 = Ebb::new(20);
    let i21 = Inst::new(21);
    let e30 = Ebb::new(30);
    let i31 = Inst::new(31);
    let e40 = Ebb::new(40);
    let i41 = Inst::new(41);
    let mut lr = LiveRange::new(v0, i11.into(), Default::default());

    assert_eq!(lr.extend_in_ebb(e30, i31, PO), true);
    assert_eq!(lr.liveins().len(), 1);

    // Coalesce to previous
    assert_eq!(lr.extend_in_ebb(e40, i41, PO), true);
    assert_eq!(lr.liveins().len(), 1);
    assert_eq!(lr.liveins()[0].begin, e30);
    assert_eq!(lr.liveins()[0].end, i41);

    // Coalesce to next
    assert_eq!(lr.extend_in_ebb(e20, i21, PO), true);
    assert_eq!(lr.liveins().len(), 1);
    assert_eq!(lr.liveins()[0].begin, e20);
    assert_eq!(lr.liveins()[0].end, i41);

    let mut lr = LiveRange::new(v0, i11.into(), Default::default());

    assert_eq!(lr.extend_in_ebb(e40, i41, PO), true);
    assert_eq!(lr.liveins().len(), 1);

    assert_eq!(lr.extend_in_ebb(e20, i21, PO), true);
    assert_eq!(lr.liveins().len(), 2);

    // Coalesce to previous and next
    assert_eq!(lr.extend_in_ebb(e30, i31, PO), true);
    assert_eq!(lr.liveins().len(), 1);
    assert_eq!(lr.liveins()[0].begin, e20);
    assert_eq!(lr.liveins()[0].end, i41);
}

#[test]
fn killed_at_def_end() {
    let e10 = Ebb::new(10);
    let i11 = Inst::new(11);
    let i12 = Inst::new(12);
    let i13 = Inst::new(13);
    let mut lr = LiveRange::new(Value::new(0), i11.into(), Affinity::default());
    assert_eq!(lr.extend_in_ebb(e10, i13, PO), false);
    assert!(lr.killed_at(i13, e10, PO));
    assert!(!lr.killed_at(i12, e10, PO));
}
