use cretonne::affinity::Affinity;
use cretonne::entity::{Ebb, Inst, Value};
use cretonne::liverange::{Interval, LiveRange};
use cretonne::progpoint::{DecimalOrder, ProgramOrder, ProgramPoint};
use std::cmp::Ordering;

const ORDER: &DecimalOrder = &DecimalOrder {};

fn number(pp: ProgramPoint) -> usize {
    match pp {
        ProgramPoint::Inst(i) => i.index(),
        ProgramPoint::Ebb(e) => e.index(),
    }
}

// Is the program point with this number inside the live range?
fn covers(lr: &LiveRange, n: usize) -> bool {
    (number(lr.def()) <= n && n <= number(lr.def_local_end()))
        || lr.liveins().iter().any(|iv| iv.begin.index() <= n && n <= iv.end.index())
}

fn state(lr: &LiveRange) -> (ProgramPoint, ProgramPoint, Vec<Interval>) {
    (lr.def(), lr.def_local_end(), lr.liveins().to_vec())
}

// The live-in intervals are sorted and disjoint, none of them touches the block
// of the definition, and the def interval stays in one block and runs forward.
fn check_invariants(lr: &LiveRange) {
    let def_ebb = number(lr.def()) / 10 * 10;
    assert_eq!(number(lr.def_local_end()) / 10 * 10, def_ebb);
    assert!(number(lr.def()) <= number(lr.def_local_end()));
    let mut prev_end: Option<usize> = None;
    for iv in lr.liveins() {
        assert_eq!(iv.begin.index() % 10, 0);
        assert!(iv.begin.index() < iv.end.index());
        if let Some(e) = prev_end {
            assert!(e < iv.begin.index());
        }
        assert!(iv.end.index() < def_ebb || number(lr.def_local_end()) < iv.begin.index());
        prev_end = Some(iv.end.index());
    }
    // No interval is left that could be joined to the next.
    for pair in lr.liveins().windows(2) {
        assert!(!ORDER.is_ebb_gap(pair[0].end, pair[1].begin));
    }
}

// A small generator of numbers, the same on every run.
struct Lcg(u64);

impl Lcg {
    fn next(&mut self, bound: u64) -> u64 {
        self.0 = self.0.wrapping_mul(6364136223846793005).wrapping_add(1442695040888963407);
        (self.0 >> 33) % bound
    }
}

fn exercise(def: ProgramPoint, seed: u64) {
    let def_ebb = number(def) / 10 * 10;
    let mut lr = LiveRange::new(Value::new(0), def, Affinity::default());
    let mut rng = Lcg(seed);
    for _ in 0..200 {
        let block = 10 * (1 + rng.next(9)) as usize;
        let mut to = block + 1 + rng.next(9) as usize;
        if block == def_ebb && to <= number(def) {
            // A use comes after the definition.
            to = number(def) + 1;
            if to % 10 == 0 {
                continue;
            }
        }
        let ebb = Ebb::new(block);
        let inst = Inst::new(to);
        let covered: Vec<bool> = (0..110).map(|n| covers(&lr, n)).collect();
        let livein_before = lr.livein_local_end(ebb, ORDER).is_some();

        let added = lr.extend_in_ebb(ebb, inst, ORDER);
        check_invariants(&lr);
        // A new live-in block is reported exactly where there was none.
        assert_eq!(added, block != def_ebb && !livein_before);
        // The range has grown, and holds the use.
        for n in 0..110 {
            assert!(!covered[n] || covers(&lr, n), "point {} was lost", n);
        }
        assert!(covers(&lr, to));
        if block != def_ebb {
            assert!(covers(&lr, block));
            assert!(lr.livein_local_end(ebb, ORDER).unwrap().index() >= to);
        } else {
            assert!(number(lr.def_local_end()) >= to);
        }
        assert!(lr.reaches_use(inst, ebb, ORDER));

        // The same use again changes nothing.
        let once = state(&lr);
        assert_eq!(lr.extend_in_ebb(ebb, inst, ORDER), false);
        assert_eq!(state(&lr), once);
    }
}

#[test]
fn invariants_hold_after_every_use() {
    for seed in 0..20 {
        exercise(Inst::new(11).into(), seed);
        exercise(Inst::new(55).into(), seed);
        exercise(Ebb::new(30).into(), seed);
        exercise(Inst::new(98).into(), seed);
    }
}

#[test]
fn adjacent_blocks_become_one_interval() {
    // Every block ends in the instruction whose number ends in 1, so uses of
    // those instructions in every block give one interval over all of them.
    let mut lr = LiveRange::new(Value::new(0), Inst::new(11).into(), Affinity::default());
    for block in [50usize, 30, 70, 40, 20, 60, 80] {
        assert!(lr.extend_in_ebb(Ebb::new(block), Inst::new(block + 1), ORDER));
    }
    assert_eq!(lr.liveins(), &[Interval { begin: Ebb::new(20), end: Inst::new(81) }][..]);
    // A use further on in the last block only moves the end.
    assert!(!lr.extend_in_ebb(Ebb::new(80), Inst::new(85), ORDER));
    assert_eq!(lr.liveins(), &[Interval { begin: Ebb::new(20), end: Inst::new(85) }][..]);
    // The end that is handed out for a block may lie in a later block.
    assert_eq!(lr.livein_local_end(Ebb::new(30), ORDER), Some(Inst::new(85)));
    assert_eq!(lr.livein_local_end(Ebb::new(90), ORDER), None);
    assert_eq!(lr.livein_local_end(Ebb::new(10), ORDER), None);
}

#[test]
fn blocks_apart_stay_apart() {
    let mut lr = LiveRange::new(Value::new(0), Inst::new(11).into(), Affinity::default());
    assert!(lr.extend_in_ebb(Ebb::new(40), Inst::new(41), ORDER));
    assert!(lr.extend_in_ebb(Ebb::new(20), Inst::new(22), ORDER));
    assert_eq!(lr.liveins().len(), 2);
    // Block 30 joins block 40, which follows its last instruction, but not
    // block 20, whose interval ends before the end of the block.
    assert!(lr.extend_in_ebb(Ebb::new(30), Inst::new(31), ORDER));
    assert_eq!(
        lr.liveins(),
        &[
            Interval { begin: Ebb::new(20), end: Inst::new(22) },
            Interval { begin: Ebb::new(30), end: Inst::new(41) },
        ][..]
    );
    // An earlier use in block 20 changes nothing: its interval still ends
    // before the end of the block.
    assert!(!lr.extend_in_ebb(Ebb::new(20), Inst::new(21), ORDER));
    assert_eq!(lr.liveins().len(), 2);
    let mut lr = LiveRange::new(Value::new(0), Inst::new(11).into(), Affinity::default());
    assert!(lr.extend_in_ebb(Ebb::new(30), Inst::new(35), ORDER));
    assert!(lr.extend_in_ebb(Ebb::new(20), Inst::new(25), ORDER));
    assert_eq!(lr.liveins().len(), 2);
}

#[test]
fn extend_an_interval_into_the_next() {
    let mut lr = LiveRange::new(Value::new(0), Inst::new(11).into(), Affinity::default());
    assert!(lr.extend_in_ebb(Ebb::new(30), Inst::new(33), ORDER));
    assert!(lr.extend_in_ebb(Ebb::new(10 + 40), Inst::new(52), ORDER));
    assert!(lr.extend_in_ebb(Ebb::new(40), Inst::new(45), ORDER));
    assert_eq!(lr.liveins().len(), 3);
    // A use further on in block 40 moves the end of its interval.
    assert!(!lr.extend_in_ebb(Ebb::new(40), Inst::new(47), ORDER));
    assert_eq!(lr.liveins().len(), 3);
    assert_eq!(lr.liveins()[1], Interval { begin: Ebb::new(40), end: Inst::new(47) });
    // Block 30 is live to its end now: it is joined to block 40.
    assert!(!lr.extend_in_ebb(Ebb::new(30), Inst::new(31), ORDER));
    assert_eq!(lr.liveins().len(), 3);
    let mut lr = LiveRange::new(Value::new(0), Inst::new(11).into(), Affinity::default());
    assert!(lr.extend_in_ebb(Ebb::new(40), Inst::new(45), ORDER));
    assert!(lr.extend_in_ebb(Ebb::new(30), Inst::new(31), ORDER));
    assert_eq!(lr.liveins(), &[Interval { begin: Ebb::new(30), end: Inst::new(45) }][..]);
}

#[test]
fn queries() {
    let e10 = Ebb::new(10);
    let e20 = Ebb::new(20);
    let e30 = Ebb::new(30);
    let mut lr = LiveRange::new(Value::new(7), Inst::new(12).into(), Affinity::Reg(3));
    assert_eq!(lr.key(), Value::new(7));
    assert!(lr.affinity == Affinity::Reg(3));
    assert!(lr.affinity.is_reg());
    assert!(!lr.affinity.is_stack());
    assert!(Affinity::default().is_unassigned());
    lr.extend_in_ebb(e10, Inst::new(15), ORDER);
    lr.extend_in_ebb(e20, Inst::new(24), ORDER);

    // A definition overlaps from the definition up to the end, the end left out.
    assert!(!lr.overlaps_def(Inst::new(11).into(), e10, ORDER));
    assert!(lr.overlaps_def(Inst::new(12).into(), e10, ORDER));
    assert!(lr.overlaps_def(Inst::new(14).into(), e10, ORDER));
    assert!(!lr.overlaps_def(Inst::new(15).into(), e10, ORDER));
    assert!(lr.overlaps_def(e20.into(), e20, ORDER));
    assert!(lr.overlaps_def(Inst::new(23).into(), e20, ORDER));
    // In a block where the value is live-in, the end of the interval counts.
    assert!(lr.overlaps_def(Inst::new(24).into(), e20, ORDER));
    assert!(!lr.overlaps_def(Inst::new(25).into(), e20, ORDER));
    assert!(!lr.overlaps_def(Inst::new(31).into(), e30, ORDER));

    // A use is reached after the definition up to the end, the end included.
    assert!(!lr.reaches_use(Inst::new(12), e10, ORDER));
    assert!(lr.reaches_use(Inst::new(13), e10, ORDER));
    assert!(lr.reaches_use(Inst::new(15), e10, ORDER));
    assert!(!lr.reaches_use(Inst::new(16), e10, ORDER));
    assert!(lr.reaches_use(Inst::new(21), e20, ORDER));
    assert!(lr.reaches_use(Inst::new(24), e20, ORDER));
    assert!(!lr.reaches_use(Inst::new(25), e20, ORDER));
    assert!(!lr.reaches_use(Inst::new(31), e30, ORDER));

    // The value is killed where an interval ends.
    assert!(lr.killed_at(Inst::new(15), e10, ORDER));
    assert!(!lr.killed_at(Inst::new(14), e10, ORDER));
    assert!(lr.killed_at(Inst::new(24), e20, ORDER));
    assert!(!lr.killed_at(Inst::new(23), e20, ORDER));
    assert!(!lr.killed_at(Inst::new(24), e30, ORDER));

    // The definition can be moved within its block.
    lr.move_def_locally(Inst::new(13).into());
    assert_eq!(lr.def(), Inst::new(13).into());
    assert_eq!(lr.def_local_end(), Inst::new(15).into());
    assert!(!lr.is_dead());
    lr.move_def_locally(Inst::new(15).into());
    assert!(lr.is_dead());
    assert!(!lr.is_local());
}

#[test]
fn interval_extend_to() {
    let mut iv = Interval { begin: Ebb::new(20), end: Inst::new(23) };
    iv.extend_to(Inst::new(22), ORDER);
    assert_eq!(iv.end, Inst::new(23));
    iv.extend_to(Inst::new(23), ORDER);
    assert_eq!(iv.end, Inst::new(23));
    iv.extend_to(Inst::new(27), ORDER);
    assert_eq!(iv, Interval { begin: Ebb::new(20), end: Inst::new(27) });
}

#[test]
fn decimal_order() {
    let i = |n| ProgramPoint::Inst(Inst::new(n));
    let e = |n| ProgramPoint::Ebb(Ebb::new(n));
    assert_eq!(ORDER.compare(i(11), i(12)), Ordering::Less);
    assert_eq!(ORDER.compare(i(12), i(12)), Ordering::Equal);
    assert_eq!(ORDER.compare(e(20), i(12)), Ordering::Greater);
    assert_eq!(ORDER.compare(e(20), i(21)), Ordering::Less);
    assert!(cretonne::progpoint::precedes(ORDER, e(20), i(21)));
    assert!(!cretonne::progpoint::precedes(ORDER, i(21), i(21)));
    assert!(ORDER.is_ebb_gap(Inst::new(21), Ebb::new(30)));
    assert!(!ORDER.is_ebb_gap(Inst::new(22), Ebb::new(30)));
    assert!(!ORDER.is_ebb_gap(Inst::new(21), Ebb::new(40)));
    assert!(!ORDER.is_ebb_gap(Inst::new(21), Ebb::new(20)));
    assert!(!ORDER.is_ebb_gap(Inst::new(21), Ebb::new(35)));
    assert_eq!(Inst::new(4).to_string(), "inst4");
    assert_eq!(Ebb::new(40).to_string(), "ebb40");
    assert_eq!(Value::new(400).to_string(), "v400");
}
