//! The live ranges of the values of a function, by value.
//!
//! Most values of a function never get a live range of their own here: only
//! those that the register allocator has to place do. The table is therefore
//! sparse. The live ranges stand densely in the order in which they came, and
//! an index by the number of the value says where the live range of a value
//! stands, if it has one.

use crate::entity::{Ebb, Inst, Value};
use crate::liverange::{LiveRange, LiveRangeView};
use crate::progpoint::{ProgramOrder, ProgramPoint};
use vstd::prelude::*;

verus! {

/// A table of live ranges, one for each value that has one.
pub struct LiveRangeTable {
    /// The live ranges, in the order in which they were put in.
    dense: Vec<LiveRange>,
    /// For the number of a value, where its live range stands in `dense`. An
    /// entry counts only if the live range that stands there is that of the
    /// value.
    sparse: Vec<usize>,
}

impl LiveRangeTable {
    /// Where the live range of `value` stands, if it has one.
    pub closed spec fn index_of(&self, value: Value) -> Option<int> {
        if value.0 < self.sparse@.len() && self.sparse@[value.0 as int] < self.dense@.len()
            && self.dense@[self.sparse@[value.0 as int] as int]@.value == value {
            Some(self.sparse@[value.0 as int] as int)
        } else {
            None
        }
    }

    /// The live ranges in the order in which they were put in.
    pub closed spec fn ranges(&self) -> Seq<LiveRangeView> {
        Seq::new(self.dense@.len(), |i: int| self.dense@[i]@)
    }

    /// The invariant of the table: the index knows of every live range where it
    /// stands, so that no value has two.
    pub closed spec fn wf(&self) -> bool {
        forall|i: int|
            0 <= i < self.dense@.len() ==> self.index_of((#[trigger] self.dense@[i])@.value)
                == Some(i)
    }

    /// Where the index gives a place, the live range of the value stands there.
    pub proof fn lemma_index_of(&self, value: Value)
        ensures
            (match self.index_of(value) {
                Some(i) => 0 <= i < self.ranges().len() && self.ranges()[i].value == value,
                None => true,
            }),
            self.wf() ==> forall|i: int|
                0 <= i < self.ranges().len() && (#[trigger] self.ranges()[i]).value == value
                    ==> self.index_of(value) == Some(i),
    {
        if self.wf() {
            assert forall|i: int| 0 <= i < self.ranges().len() && (#[trigger] self.ranges()[i]).value
                == value implies self.index_of(value) == Some(i) by {
                let lr = self.dense@[i];
            }
        }
    }
}

impl View for LiveRangeTable {
    type V = Map<Value, LiveRangeView>;

    /// The table as a map from the values that have a live range to their
    /// live ranges.
    open spec fn view(&self) -> Map<Value, LiveRangeView> {
        Map::new(
            |value: Value| self.index_of(value) is Some,
            |value: Value| self.ranges()[self.index_of(value).unwrap()],
        )
    }
}

impl LiveRangeTable {
    /// Create a table without live ranges.
    pub fn new() -> (r: LiveRangeTable)
        ensures
            r.wf(),
            r@ == Map::<Value, LiveRangeView>::empty(),
            r.ranges().len() == 0,
    {
        let r = LiveRangeTable { dense: Vec::new(), sparse: Vec::new() };
        assert(r@ =~= Map::<Value, LiveRangeView>::empty());
        r
    }

    /// The number of live ranges in the table.
    pub fn len(&self) -> (r: usize)
        ensures
            r == self.ranges().len(),
    {
        self.dense.len()
    }

    /// Is the table without live ranges?
    pub fn is_empty(&self) -> (r: bool)
        ensures
            r == (self.ranges().len() == 0),
    {
        self.dense.len() == 0
    }

    /// Where the live range of `value` stands, if it has one.
    fn find(&self, value: Value) -> (r: Option<usize>)
        ensures
            (match r {
                Some(i) => self.index_of(value) == Some(i as int) && i < self.dense@.len(),
                None => self.index_of(value) is None,
            }),
    {
        let n = value.0 as usize;
        if n < self.sparse.len() {
            let i = self.sparse[n];
            if i < self.dense.len() && self.dense[i].key() == value {
                return Some(i);
            }
        }
        None
    }

    /// Has `value` a live range in the table?
    pub fn contains_key(&self, value: Value) -> (r: bool)
        ensures
            r == self@.contains_key(value),
    {
        self.find(value).is_some()
    }

    /// The live range of `value`, if it has one.
    pub fn get(&self, value: Value) -> (r: Option<&LiveRange>)
        ensures
            (match r {
                Some(lr) => self@.contains_key(value) && lr@ == self@[value],
                None => !self@.contains_key(value),
            }),
    {
        match self.find(value) {
            Some(i) => Some(&self.dense[i]),
            None => None,
        }
    }

    /// All the live ranges, in the order in which they were put in.
    pub fn values(&self) -> (r: &[LiveRange])
        ensures
            r@.len() == self.ranges().len(),
            forall|i: int| 0 <= i < r@.len() ==> (#[trigger] r@[i])@ == self.ranges()[i],
    {
        self.dense.as_slice()
    }

    /// Put the live range of a value into the table. If the value had a live
    /// range already, the new one takes its place, and the old one is handed
    /// back.
    #[verifier::rlimit(40)]
    pub fn insert(&mut self, lr: LiveRange) -> (r: Option<LiveRange>)
        requires
            old(self).wf(),
            old(self).ranges().len() < usize::MAX,
        ensures
            final(self).wf(),
            final(self)@ == old(self)@.insert(lr@.value, lr@),
            (match r {
                Some(before) => old(self)@.contains_key(lr@.value) && before@ == old(self)@[lr@.value]
                    && final(self).ranges().len() == old(self).ranges().len(),
                None => !old(self)@.contains_key(lr@.value) && final(self).ranges() == old(
                    self,
                ).ranges().push(lr@),
            }),
    {
        let value = lr.key();
        let ghost before = *self;
        match self.find(value) {
            Some(i) => {
                let mut lr = lr;
                std::mem::swap(&mut self.dense[i], &mut lr);
                proof {
                    assert forall|k: int| 0 <= k < self.dense@.len() implies self.index_of(
                        (#[trigger] self.dense@[k])@.value,
                    ) == Some(k) by {
                        let at_k = before.dense@[k];
                    }
                    assert forall|v: Value| self.index_of(v) == before.index_of(v) by {
                        if v.0 < self.sparse@.len() {
                            let at = before.sparse@[v.0 as int];
                        }
                    }
                    assert(self@ =~= before@.insert(value, self.dense@[i as int]@));
                }
                Some(lr)
            },
            None => {
                let n = value.0 as usize;
                let place = self.dense.len();
                self.dense.push(lr);
                while self.sparse.len() <= n
                    invariant
                        self.dense@ == before.dense@.push(lr),
                        self.sparse@.len() >= before.sparse@.len(),
                        forall|k: int|
                            0 <= k < self.sparse@.len() ==> #[trigger] self.sparse@[k] == (if k
                                < before.sparse@.len() {
                                before.sparse@[k]
                            } else {
                                0usize
                            }),
                    decreases n + 1 - self.sparse@.len(),
                {
                    self.sparse.push(0);
                }
                self.sparse.set(n, place);
                proof {
                    assert forall|v: Value| v != value implies self.index_of(v)
                        == before.index_of(v) by {
                        if v.0 < self.sparse@.len() {
                            let at = self.sparse@[v.0 as int];
                            if v.0 >= before.sparse@.len() && at < self.dense@.len() {
                                // The new entries all say 0, and what stands at
                                // 0 has a place in the old index.
                                if before.dense@.len() > 0 {
                                    let first = before.dense@[0];
                                    assert(before.index_of(first@.value) == Some(0int));
                                }
                            }
                        }
                    }
                    assert(self.index_of(value) == Some(place as int));
                    assert forall|k: int| 0 <= k < self.dense@.len() implies self.index_of(
                        (#[trigger] self.dense@[k])@.value,
                    ) == Some(k) by {
                        if k < place {
                            let at_k = before.dense@[k];
                            assert(before.index_of(at_k@.value) == Some(k));
                        }
                    }
                    assert(self@ =~= before@.insert(value, lr@));
                    assert(self.ranges() =~= before.ranges().push(lr@));
                }
                None
            },
        }
    }

    /// Record a use of `value` at `to` in `ebb` in the live range of the value.
    ///
    /// Returns whether the value has become live-in to `ebb`, or `None` if the
    /// value has no live range in the table, which stays as it is.
    #[verifier::rlimit(40)]
    pub fn extend_in_ebb<PO: ProgramOrder>(
        &mut self,
        value: Value,
        ebb: Ebb,
        to: Inst,
        order: &PO,
    ) -> (r: Option<bool>)
        requires
            old(self).wf(),
            old(self)@.contains_key(value) ==> {
                let lr = old(self)@[value];
                lr.wf(order) && lr.admits_use(ebb, to, order) && lr.liveins.len() < usize::MAX
            },
        ensures
            final(self).wf(),
            (match r {
                Some(added) => {
                    let lr = old(self)@[value];
                    &&& old(self)@.contains_key(value)
                    &&& final(self)@ == old(self)@.insert(value, lr.extended(ebb, to, order))
                    &&& added == lr.adds_livein(ebb, to, order)
                    &&& final(self)@[value].wf(order)
                },
                None => !old(self)@.contains_key(value) && final(self)@ == old(self)@,
            }),
    {
        let ghost before = *self;
        match self.find(value) {
            Some(i) => {
                let added = self.dense[i].extend_in_ebb(ebb, to, order);
                proof {
                    assert forall|v: Value| self.index_of(v) == before.index_of(v) by {
                        if v.0 < self.sparse@.len() {
                            let at = before.sparse@[v.0 as int];
                        }
                    }
                    assert forall|k: int| 0 <= k < self.dense@.len() implies self.index_of(
                        (#[trigger] self.dense@[k])@.value,
                    ) == Some(k) by {
                        let at_k = before.dense@[k];
                    }
                    assert(self@ =~= before@.insert(value, self.dense@[i as int]@));
                }
                Some(added)
            },
            None => None,
        }
    }

    /// Move the definition of `value` to another program point of its block.
    /// Returns whether the value has a live range in the table.
    #[verifier::rlimit(40)]
    pub fn move_def_locally(&mut self, value: Value, def: ProgramPoint) -> (r: bool)
        requires
            old(self).wf(),
        ensures
            final(self).wf(),
            r == old(self)@.contains_key(value),
            final(self)@ == (if r {
                old(self)@.insert(value, (LiveRangeView { def_begin: def, ..old(self)@[value] }))
            } else {
                old(self)@
            }),
    {
        let ghost before = *self;
        match self.find(value) {
            Some(i) => {
                self.dense[i].move_def_locally(def);
                proof {
                    assert forall|v: Value| self.index_of(v) == before.index_of(v) by {
                        if v.0 < self.sparse@.len() {
                            let at = before.sparse@[v.0 as int];
                        }
                    }
                    assert forall|k: int| 0 <= k < self.dense@.len() implies self.index_of(
                        (#[trigger] self.dense@[k])@.value,
                    ) == Some(k) by {
                        let at_k = before.dense@[k];
                    }
                    assert(self@ =~= before@.insert(value, self.dense@[i as int]@));
                }
                true
            },
            None => false,
        }
    }
}

} // verus!
