use cretonne::affinity::Affinity;
use cretonne::entity::{Ebb, Inst, Value};
use cretonne::liverange::LiveRange;
use cretonne::liverange_table::LiveRangeTable;
use cretonne::progpoint::DecimalOrder;

const ORDER: &DecimalOrder = &DecimalOrder {};

fn dead(value: usize, def: usize) -> LiveRange {
    LiveRange::new(Value::new(value), Inst::new(def).into(), Affinity::default())
}

#[test]
fn one_live_range_for_each_value() {
    let mut table = LiveRangeTable::new();
    assert!(table.is_empty());
    assert!(table.get(Value::new(0)).is_none());
    assert!(table.insert(dead(7, 11)).is_none());
    assert!(table.insert(dead(2, 21)).is_none());
    assert!(table.insert(dead(40, 31)).is_none());
    assert_eq!(table.len(), 3);
    assert!(table.contains_key(Value::new(7)));
    assert!(table.contains_key(Value::new(2)));
    assert!(table.contains_key(Value::new(40)));
    assert!(!table.contains_key(Value::new(0)));
    assert!(!table.contains_key(Value::new(3)));
    assert!(!table.contains_key(Value::new(41)));
    assert_eq!(table.get(Value::new(2)).unwrap().def(), Inst::new(21).into());
    assert_eq!(table.get(Value::new(40)).unwrap().key(), Value::new(40));

    // A second live range for a value takes the place of the first.
    let old = table.insert(dead(2, 25)).unwrap();
    assert_eq!(old.def(), Inst::new(21).into());
    assert_eq!(table.len(), 3);
    assert_eq!(table.get(Value::new(2)).unwrap().def(), Inst::new(25).into());
    let keys: Vec<usize> = table.values().iter().map(|lr| lr.key().index()).collect();
    assert_eq!(keys, vec![7, 2, 40]);
}

#[test]
fn uses_go_to_the_live_range_of_the_value() {
    let mut table = LiveRangeTable::new();
    table.insert(dead(1, 11));
    table.insert(dead(0, 12));
    assert_eq!(table.extend_in_ebb(Value::new(1), Ebb::new(10), Inst::new(14), ORDER), Some(false));
    assert_eq!(table.extend_in_ebb(Value::new(1), Ebb::new(30), Inst::new(32), ORDER), Some(true));
    assert_eq!(table.extend_in_ebb(Value::new(1), Ebb::new(30), Inst::new(32), ORDER), Some(false));
    assert_eq!(table.extend_in_ebb(Value::new(5), Ebb::new(30), Inst::new(32), ORDER), None);
    let lr = table.get(Value::new(1)).unwrap();
    assert_eq!(lr.def_local_end(), Inst::new(14).into());
    assert_eq!(lr.livein_local_end(Ebb::new(30), ORDER), Some(Inst::new(32)));
    // The other value was left alone.
    assert!(table.get(Value::new(0)).unwrap().is_dead());

    assert!(table.move_def_locally(Value::new(1), Inst::new(12).into()));
    assert!(!table.move_def_locally(Value::new(9), Inst::new(12).into()));
    assert_eq!(table.get(Value::new(1)).unwrap().def(), Inst::new(12).into());
    assert_eq!(table.len(), 2);
}
