//! The live range of an SSA value.
//!
//! A value is live from the point that defines it to every point where it is still
//! needed. Inside the block that defines it, that is one interval, the *def
//! interval*, from the definition to the last local use. In every other block where
//! the value is live it is live from the header on, so it is *live-in* there, up to
//! its last use in that block or to the branch that leads on to another use.
//!
//! A live range keeps the def interval and a list of live-in intervals, sorted in
//! program order. Where a value lives on across the gap between two consecutive
//! blocks, their live-in intervals are kept as one, so that a range which spans
//! many blocks stays short.

use crate::affinity::Affinity;
use crate::entity::{Ebb, Inst, Value};
use crate::progpoint::{precedes, ProgramOrder, ProgramPoint};
use vstd::prelude::*;

verus! {

/// A live-in interval: the value is live from the header of `begin` through `end`.
///
/// An interval that spans several consecutive blocks stands for the live-in
/// intervals of all of them; all but the last cover their whole block.
#[derive(Copy, Clone, PartialEq, Eq, Structural, Debug)]
pub struct Interval {
    /// The block at whose header the interval begins.
    pub begin: Ebb,
    /// The last instruction of the interval.
    pub end: Inst,
}

/// The live range of one SSA value.
pub struct LiveRange {
    /// The value that this live range describes.
    value: Value,
    /// The preferred storage for the value.
    pub affinity: Affinity,
    /// Where the value is defined: an instruction, or a block header for a block argument.
    def_begin: ProgramPoint,
    /// The end of the def interval, in the same block as `def_begin`.
    def_end: ProgramPoint,
    /// The live-in intervals, sorted in program order.
    liveins: Vec<Interval>,
}

/// What a live range holds, as a mathematical value.
pub struct LiveRangeView {
    /// The value that the live range describes.
    pub value: Value,
    /// The preferred storage for the value.
    pub affinity: Affinity,
    /// The start of the def interval.
    pub def_begin: ProgramPoint,
    /// The end of the def interval.
    pub def_end: ProgramPoint,
    /// The live-in intervals in program order.
    pub liveins: Seq<Interval>,
}

/// The position of a block header.
pub open spec fn at_ebb<PO: ProgramOrder>(order: &PO, ebb: Ebb) -> int {
    order.seq(ProgramPoint::Ebb(ebb))
}

/// The position of an instruction.
pub open spec fn at_inst<PO: ProgramOrder>(order: &PO, inst: Inst) -> int {
    order.seq(ProgramPoint::Inst(inst))
}

/// Is no interval of the sequence followed by one that begins at the block which
/// comes directly after its last instruction?
pub open spec fn none_adjacent<PO: ProgramOrder>(liveins: Seq<Interval>, order: &PO) -> bool {
    forall|i: int|
        0 <= i < liveins.len() - 1 ==> !order.ebb_gap(
            (#[trigger] liveins[i]).end,
            liveins[i + 1].begin,
        )
}

/// Does `x` fit between its neighbours at place `k` of a sequence without being
/// adjacent to either? `before` and `after` are the places of the neighbours.
pub open spec fn fits_apart<PO: ProgramOrder>(
    liveins: Seq<Interval>,
    before: int,
    x: Interval,
    after: int,
    order: &PO,
) -> bool {
    &&& 0 <= before < liveins.len() ==> !order.ebb_gap(liveins[before].end, x.begin)
    &&& 0 <= after < liveins.len() ==> !order.ebb_gap(x.end, liveins[after].begin)
}

/// Putting an interval in the place of another keeps the intervals apart, if it
/// is apart from both neighbours.
proof fn lemma_apart_update<PO: ProgramOrder>(liveins: Seq<Interval>, k: int, x: Interval, order: &PO)
    requires
        none_adjacent(liveins, order),
        0 <= k < liveins.len(),
        fits_apart(liveins, k - 1, x, k + 1, order),
    ensures
        none_adjacent(liveins.update(k, x), order),
{
    let after = liveins.update(k, x);
    assert forall|i: int| 0 <= i < after.len() - 1 implies !order.ebb_gap(
        (#[trigger] after[i]).end,
        after[i + 1].begin,
    ) by {
        let a = liveins[i];
        let b = liveins[i + 1];
    }
}

/// Putting an interval in the place of two keeps the intervals apart, if it is
/// apart from the neighbours of the two.
proof fn lemma_apart_merge<PO: ProgramOrder>(liveins: Seq<Interval>, k: int, x: Interval, order: &PO)
    requires
        none_adjacent(liveins, order),
        0 <= k < liveins.len() - 1,
        fits_apart(liveins, k - 1, x, k + 2, order),
    ensures
        none_adjacent(liveins.update(k, x).remove(k + 1), order),
{
    let after = liveins.update(k, x).remove(k + 1);
    assert forall|i: int| 0 <= i < after.len() - 1 implies !order.ebb_gap(
        (#[trigger] after[i]).end,
        after[i + 1].begin,
    ) by {
        if i + 1 < k {
            let a = liveins[i];
        } else if i + 1 == k {
            let a = liveins[i];
        } else if i == k {
        } else {
            let a = liveins[i + 1];
            assert(after[i] == a);
            assert(after[i + 1] == liveins[i + 2]);
        }
    }
}

/// Putting an interval between two keeps the intervals apart, if it is apart
/// from both.
proof fn lemma_apart_insert<PO: ProgramOrder>(liveins: Seq<Interval>, k: int, x: Interval, order: &PO)
    requires
        none_adjacent(liveins, order),
        0 <= k <= liveins.len(),
        fits_apart(liveins, k - 1, x, k, order),
    ensures
        none_adjacent(liveins.insert(k, x), order),
{
    let after = liveins.insert(k, x);
    assert forall|i: int| 0 <= i < after.len() - 1 implies !order.ebb_gap(
        (#[trigger] after[i]).end,
        after[i + 1].begin,
    ) by {
        if i + 1 < k {
            let a = liveins[i];
            assert(after[i] == a);
            assert(after[i + 1] == liveins[i + 1]);
        } else if i + 1 == k {
            assert(after[i] == liveins[i]);
        } else if i == k {
            assert(after[i + 1] == liveins[k]);
        } else {
            let a = liveins[i - 1];
            assert(after[i] == a);
            assert(after[i + 1] == liveins[i]);
        }
    }
}

impl Interval {
    /// The interval with its end moved to `to`, where that makes it longer.
    pub open spec fn extended_to<PO: ProgramOrder>(self, to: Inst, order: &PO) -> Interval {
        if at_inst(order, to) > at_inst(order, self.end) {
            Interval { begin: self.begin, end: to }
        } else {
            self
        }
    }

    /// Does the interval hold the header of `ebb`?
    pub open spec fn covers_ebb<PO: ProgramOrder>(self, ebb: Ebb, order: &PO) -> bool {
        at_ebb(order, self.begin) <= at_ebb(order, ebb) < at_inst(order, self.end)
    }

    /// Does the interval hold the program point `pp`?
    pub open spec fn covers<PO: ProgramOrder>(self, pp: ProgramPoint, order: &PO) -> bool {
        at_ebb(order, self.begin) <= order.seq(pp) <= at_inst(order, self.end)
    }

    /// Both ends are inserted in `order`, and the interval is not backwards.
    pub open spec fn wf<PO: ProgramOrder>(self, order: &PO) -> bool {
        &&& order.has_ebb(self.begin)
        &&& order.inst_ebb(self.end) is Some
        &&& at_ebb(order, self.begin) < at_inst(order, self.end)
    }
}

impl LiveRangeView {
    /// The block in which the value is defined, where the definition is inserted in `order`.
    pub open spec fn def_ebb<PO: ProgramOrder>(self, order: &PO) -> Option<Ebb> {
        crate::progpoint::pp_ebb(order, self.def_begin)
    }

    /// The part of the invariant that the queries rest on: every live-in interval
    /// runs forward between two inserted points, and each ends before the next
    /// begins.
    pub open spec fn liveins_ordered<PO: ProgramOrder>(self, order: &PO) -> bool {
        &&& forall|i: int| 0 <= i < self.liveins.len() ==> (#[trigger] self.liveins[i]).wf(order)
        &&& forall|i: int, j: int|
            0 <= i < j < self.liveins.len() ==> at_inst(order, (#[trigger] self.liveins[i]).end)
                < at_ebb(order, (#[trigger] self.liveins[j]).begin)
    }

    /// The invariant of a live range under `order`.
    ///
    /// The def interval lies in one block and is not backwards. The live-in
    /// intervals are sorted and disjoint, each ending before the next begins, and
    /// none of them touches the block of the definition: each ends before the header
    /// of that block or begins after the end of the def interval.
    pub open spec fn wf<PO: ProgramOrder>(self, order: &PO) -> bool {
        &&& self.def_ebb(order) is Some
        &&& crate::progpoint::pp_ebb(order, self.def_end) == self.def_ebb(order)
        &&& order.seq(self.def_begin) <= order.seq(self.def_end)
        &&& self.liveins_ordered(order)
        &&& forall|i: int|
            0 <= i < self.liveins.len() ==> {
                ||| at_inst(order, (#[trigger] self.liveins[i]).end) < at_ebb(
                    order,
                    self.def_ebb(order).unwrap(),
                )
                ||| order.seq(self.def_end) < at_ebb(order, self.liveins[i].begin)
            }
    }

    /// Are the live-in intervals joined as far as they can be: is no interval
    /// followed by one that begins at the block which comes directly after its
    /// last instruction?
    pub open spec fn coalesced<PO: ProgramOrder>(self, order: &PO) -> bool {
        none_adjacent(self.liveins, order)
    }

    /// Is `pp` inside the live range: in the def interval, ends included, or in a
    /// live-in interval?
    pub open spec fn covers<PO: ProgramOrder>(self, pp: ProgramPoint, order: &PO) -> bool {
        ||| order.seq(self.def_begin) <= order.seq(pp) <= order.seq(self.def_end)
        ||| exists|i: int|
            0 <= i < self.liveins.len() && (#[trigger] self.liveins[i]).covers(pp, order)
    }

    /// Is the value live-in to `ebb`: does some live-in interval hold its header?
    pub open spec fn is_livein<PO: ProgramOrder>(self, ebb: Ebb, order: &PO) -> bool {
        exists|i: int|
            0 <= i < self.liveins.len() && (#[trigger] self.liveins[i]).covers_ebb(ebb, order)
    }

    /// The index of the live-in interval that holds the header of `ebb`.
    pub open spec fn livein_index<PO: ProgramOrder>(self, ebb: Ebb, order: &PO) -> int
        recommends
            self.is_livein(ebb, order),
    {
        choose|i: int|
            0 <= i < self.liveins.len() && (#[trigger] self.liveins[i]).covers_ebb(ebb, order)
    }

    /// Does `n` split the live-in intervals into those that end at or before the
    /// header of `ebb` and those that begin after it?
    pub open spec fn splits_at<PO: ProgramOrder>(self, n: int, ebb: Ebb, order: &PO) -> bool {
        &&& 0 <= n <= self.liveins.len()
        &&& forall|i: int|
            0 <= i < n ==> at_inst(order, (#[trigger] self.liveins[i]).end) <= at_ebb(order, ebb)
        &&& forall|i: int|
            n <= i < self.liveins.len() ==> at_ebb(order, ebb) < at_ebb(
                order,
                (#[trigger] self.liveins[i]).begin,
            )
    }

    /// Where a live-in interval for `ebb` belongs among the others: the number of
    /// intervals that lie before `ebb`.
    pub open spec fn insertion_index<PO: ProgramOrder>(self, ebb: Ebb, order: &PO) -> int
        recommends
            !self.is_livein(ebb, order),
    {
        choose|n: int| self.splits_at(n, ebb, order)
    }

    /// The end of the live-in interval that holds `ebb`, if the value is live-in there.
    pub open spec fn livein_end<PO: ProgramOrder>(self, ebb: Ebb, order: &PO) -> Option<Inst> {
        if self.is_livein(ebb, order) {
            Some(self.liveins[self.livein_index(ebb, order)].end)
        } else {
            None
        }
    }

    /// Does a use at `to` in `ebb` fall into the def interval's block, at or after
    /// the definition?
    pub open spec fn extends_def<PO: ProgramOrder>(self, ebb: Ebb, to: Inst, order: &PO) -> bool {
        at_ebb(order, ebb) <= order.seq(self.def_end) && order.seq(self.def_begin) <= at_inst(
            order,
            to,
        )
    }

    /// The live-in intervals after a use at `to` in `ebb`, a block where the value
    /// is live-in already: the interval that holds `ebb` reaches `to`, and takes in
    /// the next interval where its end is now followed directly by the block that
    /// the next one begins at.
    pub open spec fn liveins_widened<PO: ProgramOrder>(
        self,
        ebb: Ebb,
        to: Inst,
        order: &PO,
    ) -> Seq<Interval> {
        let n = self.livein_index(ebb, order);
        let reached = self.liveins[n].extended_to(to, order);
        if n + 1 < self.liveins.len() && order.ebb_gap(reached.end, self.liveins[n + 1].begin) {
            self.liveins.update(n, reached.extended_to(self.liveins[n + 1].end, order)).remove(
                n + 1,
            )
        } else {
            self.liveins.update(n, reached)
        }
    }

    /// The live-in intervals after a use at `to` in `ebb`, a block where the value
    /// was not live-in: a new interval from `ebb` to `to`, joined with the interval
    /// before it, the one after it, or both, where only a gap between two blocks
    /// lies between them.
    pub open spec fn liveins_added<PO: ProgramOrder>(
        self,
        ebb: Ebb,
        to: Inst,
        order: &PO,
    ) -> Seq<Interval> {
        let n = self.insertion_index(ebb, order);
        let join_prev = n > 0 && order.ebb_gap(self.liveins[n - 1].end, ebb);
        let join_next = n < self.liveins.len() && order.ebb_gap(to, self.liveins[n].begin);
        if join_prev && join_next {
            self.liveins.update(
                n - 1,
                self.liveins[n - 1].extended_to(self.liveins[n].end, order),
            ).remove(n)
        } else if join_prev {
            self.liveins.update(n - 1, self.liveins[n - 1].extended_to(to, order))
        } else if join_next {
            self.liveins.update(n, Interval { begin: ebb, end: self.liveins[n].end })
        } else {
            self.liveins.insert(n, Interval { begin: ebb, end: to })
        }
    }

    /// The live range after a use at `to` in `ebb`.
    pub open spec fn extended<PO: ProgramOrder>(self, ebb: Ebb, to: Inst, order: &PO) -> Self {
        if self.extends_def(ebb, to, order) {
            LiveRangeView {
                def_end: if at_inst(order, to) > order.seq(self.def_end) {
                    ProgramPoint::Inst(to)
                } else {
                    self.def_end
                },
                ..self
            }
        } else if self.is_livein(ebb, order) {
            LiveRangeView { liveins: self.liveins_widened(ebb, to, order), ..self }
        } else {
            LiveRangeView { liveins: self.liveins_added(ebb, to, order), ..self }
        }
    }

    /// Does a use at `to` in `ebb` make the value live-in to a block where it was not?
    pub open spec fn adds_livein<PO: ProgramOrder>(self, ebb: Ebb, to: Inst, order: &PO) -> bool {
        !self.extends_def(ebb, to, order) && !self.is_livein(ebb, order)
    }

    /// May a use at `to` in `ebb` be recorded? The instruction is inserted in
    /// `ebb`, it is not the definition itself, and in the block of the definition
    /// it does not come before the definition.
    pub open spec fn admits_use<PO: ProgramOrder>(self, ebb: Ebb, to: Inst, order: &PO) -> bool {
        &&& order.inst_ebb(to) == Some(ebb)
        &&& self.def_begin != ProgramPoint::Inst(to)
        &&& self.def_ebb(order) == Some(ebb) ==> order.seq(self.def_begin) <= at_inst(order, to)
    }
}

/// A block header at or before an inserted instruction is at or before the header of
/// the instruction's own block.
pub proof fn lemma_header_before_inst<PO: ProgramOrder>(order: &PO, ebb: Ebb, inst: Inst)
    requires
        order.has_ebb(ebb),
        order.inst_ebb(inst) is Some,
        at_ebb(order, ebb) <= at_inst(order, inst),
    ensures
        at_ebb(order, ebb) <= at_ebb(order, order.inst_ebb(inst).unwrap()),
        at_ebb(order, ebb) < at_inst(order, inst),
{
    order.lemma_inst_after_header(inst);
    if at_ebb(order, order.inst_ebb(inst).unwrap()) < at_ebb(order, ebb) {
        order.lemma_inst_before_later_header(inst, ebb);
    }
}

/// A program point lies at or after the header of its block, and before the header
/// of every later block.
pub proof fn lemma_point_in_ebb<PO: ProgramOrder>(order: &PO, pp: ProgramPoint, later: Ebb)
    requires
        crate::progpoint::pp_ebb(order, pp) is Some,
        order.has_ebb(later),
    ensures
        order.has_ebb(crate::progpoint::pp_ebb(order, pp).unwrap()),
        at_ebb(order, crate::progpoint::pp_ebb(order, pp).unwrap()) <= order.seq(pp),
        at_ebb(order, crate::progpoint::pp_ebb(order, pp).unwrap()) < at_ebb(order, later)
            ==> order.seq(pp) < at_ebb(order, later),
{
    match pp {
        ProgramPoint::Inst(inst) => {
            order.lemma_inst_after_header(inst);
            if at_ebb(order, order.inst_ebb(inst).unwrap()) < at_ebb(order, later) {
                order.lemma_inst_before_later_header(inst, later);
            }
        },
        ProgramPoint::Ebb(_) => {},
    }
}

impl LiveRangeView {
    /// At most one live-in interval holds the header of a block.
    pub proof fn lemma_livein_unique<PO: ProgramOrder>(self, ebb: Ebb, order: &PO, i: int, j: int)
        requires
            self.liveins_ordered(order),
            0 <= i < self.liveins.len(),
            0 <= j < self.liveins.len(),
            self.liveins[i].covers_ebb(ebb, order),
            self.liveins[j].covers_ebb(ebb, order),
        ensures
            i == j,
    {
        if i < j {
            assert(self.liveins[j].wf(order));
        } else if j < i {
            assert(self.liveins[i].wf(order));
        }
    }

    /// Where the value is live-in to `ebb`, `livein_index` is the one interval that
    /// holds it.
    pub proof fn lemma_livein_index<PO: ProgramOrder>(self, ebb: Ebb, order: &PO, n: int)
        requires
            self.liveins_ordered(order),
            0 <= n < self.liveins.len(),
            self.liveins[n].covers_ebb(ebb, order),
        ensures
            self.is_livein(ebb, order),
            self.livein_index(ebb, order) == n,
            self.livein_end(ebb, order) == Some(self.liveins[n].end),
    {
        let k = self.livein_index(ebb, order);
        self.lemma_livein_unique(ebb, order, k, n);
    }

    /// A split point leaves `ebb` outside of every live-in interval, and there is
    /// only one.
    pub proof fn lemma_split_unique<PO: ProgramOrder>(self, ebb: Ebb, order: &PO, n: int)
        requires
            self.liveins_ordered(order),
            self.splits_at(n, ebb, order),
        ensures
            !self.is_livein(ebb, order),
            self.insertion_index(ebb, order) == n,
            self.livein_end(ebb, order) is None,
    {
        assert forall|i: int| 0 <= i < self.liveins.len() implies !(#[trigger] self.liveins[i]).covers_ebb(
            ebb,
            order,
        ) by {
            assert(self.liveins[i].wf(order));
        }
        let m = self.insertion_index(ebb, order);
        if m < n {
            assert(self.liveins[m].wf(order));
        } else if n < m {
            assert(self.liveins[n].wf(order));
        }
    }

    /// Among the first `k` live-in intervals of a value that is not live-in to `ebb`,
    /// some index parts those before `ebb` from those after it.
    proof fn lemma_split_prefix<PO: ProgramOrder>(self, ebb: Ebb, order: &PO, k: int) -> (n: int)
        requires
            self.liveins_ordered(order),
            !self.is_livein(ebb, order),
            0 <= k <= self.liveins.len(),
        ensures
            0 <= n <= k,
            forall|i: int|
                0 <= i < n ==> at_inst(order, (#[trigger] self.liveins[i]).end) <= at_ebb(
                    order,
                    ebb,
                ),
            forall|i: int|
                n <= i < k ==> at_ebb(order, ebb) < at_ebb(
                    order,
                    (#[trigger] self.liveins[i]).begin,
                ),
        decreases k,
    {
        if k == 0 {
            0
        } else {
            let m = self.lemma_split_prefix(ebb, order, k - 1);
            let last = self.liveins[k - 1];
            assert(last.wf(order));
            if at_ebb(order, ebb) < at_ebb(order, last.begin) {
                m
            } else {
                assert(!last.covers_ebb(ebb, order));
                assert forall|i: int| 0 <= i < k implies at_inst(
                    order,
                    (#[trigger] self.liveins[i]).end,
                ) <= at_ebb(order, ebb) by {
                    if i < k - 1 {
                        assert(at_inst(order, self.liveins[i].end) < at_ebb(
                            order,
                            self.liveins[k - 1].begin,
                        ));
                    }
                }
                k
            }
        }
    }

    /// Where the value is not live-in to `ebb`, `insertion_index` is a split point.
    pub proof fn lemma_split_exists<PO: ProgramOrder>(self, ebb: Ebb, order: &PO)
        requires
            self.liveins_ordered(order),
            !self.is_livein(ebb, order),
        ensures
            self.splits_at(self.insertion_index(ebb, order), ebb, order),
    {
        let n = self.lemma_split_prefix(ebb, order, self.liveins.len() as int);
        assert(self.splits_at(n, ebb, order));
    }
}

impl LiveRangeView {
    /// A use that extends the def interval lies in the block of the definition.
    pub proof fn lemma_use_in_def_ebb<PO: ProgramOrder>(self, ebb: Ebb, to: Inst, order: &PO)
        requires
            self.wf(order),
            self.admits_use(ebb, to, order),
            self.extends_def(ebb, to, order),
        ensures
            self.def_ebb(order) == Some(ebb),
    {
        let d = self.def_ebb(order).unwrap();
        order.lemma_inst_after_header(to);
        lemma_point_in_ebb(order, self.def_begin, ebb);
        lemma_point_in_ebb(order, self.def_end, ebb);
        if at_ebb(order, ebb) < at_ebb(order, d) {
            order.lemma_inst_before_later_header(to, d);
        }
        order.lemma_headers_distinct(ebb, d);
    }

    /// A use extends the def interval exactly where it lies in the block of the
    /// definition.
    pub proof fn lemma_extends_def_in_def_ebb<PO: ProgramOrder>(
        self,
        ebb: Ebb,
        to: Inst,
        order: &PO,
    )
        requires
            self.wf(order),
            self.admits_use(ebb, to, order),
        ensures
            self.extends_def(ebb, to, order) == (self.def_ebb(order) == Some(ebb)),
    {
        if self.extends_def(ebb, to, order) {
            self.lemma_use_in_def_ebb(ebb, to, order);
        }
        if self.def_ebb(order) == Some(ebb) {
            order.lemma_inst_after_header(to);
            lemma_point_in_ebb(order, self.def_end, ebb);
        }
    }

    /// A use that does not extend the def interval lies in another block: before
    /// the header of the defining block, or in a block after the def interval.
    pub proof fn lemma_use_outside_def_ebb<PO: ProgramOrder>(self, ebb: Ebb, to: Inst, order: &PO)
        requires
            self.wf(order),
            self.admits_use(ebb, to, order),
            !self.extends_def(ebb, to, order),
        ensures
            order.has_ebb(ebb),
            order.has_ebb(self.def_ebb(order).unwrap()),
            at_ebb(order, ebb) < at_inst(order, to),
            at_ebb(order, ebb) != at_ebb(order, self.def_ebb(order).unwrap()),
            at_ebb(order, ebb) < at_ebb(order, self.def_ebb(order).unwrap()) ==> at_inst(order, to)
                < at_ebb(order, self.def_ebb(order).unwrap()),
            at_ebb(order, self.def_ebb(order).unwrap()) < at_ebb(order, ebb) ==> order.seq(
                self.def_end,
            ) < at_ebb(order, ebb),
    {
        let d = self.def_ebb(order).unwrap();
        order.lemma_inst_after_header(to);
        lemma_point_in_ebb(order, self.def_begin, ebb);
        lemma_point_in_ebb(order, self.def_end, ebb);
        if at_ebb(order, ebb) == at_ebb(order, d) {
            order.lemma_headers_distinct(ebb, d);
        }
        if at_ebb(order, ebb) < at_ebb(order, d) {
            order.lemma_inst_before_later_header(to, d);
        }
    }

    /// Extending the def interval keeps the invariant.
    proof fn lemma_def_extended_wf<PO: ProgramOrder>(self, ebb: Ebb, to: Inst, order: &PO)
        requires
            self.wf(order),
            self.admits_use(ebb, to, order),
            self.extends_def(ebb, to, order),
        ensures
            self.extended(ebb, to, order).wf(order),
    {
        let after = self.extended(ebb, to, order);
        self.lemma_use_in_def_ebb(ebb, to, order);
        assert forall|i: int| 0 <= i < after.liveins.len() implies {
            ||| at_inst(order, (#[trigger] after.liveins[i]).end) < at_ebb(
                order,
                after.def_ebb(order).unwrap(),
            )
            ||| order.seq(after.def_end) < at_ebb(order, after.liveins[i].begin)
        } by {
            let iv = self.liveins[i];
            assert(iv.wf(order));
            lemma_point_in_ebb(order, self.def_end, iv.begin);
            if order.seq(self.def_end) < at_ebb(order, iv.begin) {
                order.lemma_inst_before_later_header(to, iv.begin);
            }
        }
    }
}

impl LiveRangeView {
    /// Widening the interval of a block where the value is live-in keeps the invariant.
    #[verifier::rlimit(40)]
    proof fn lemma_widened_wf<PO: ProgramOrder>(self, ebb: Ebb, to: Inst, order: &PO)
        requires
            self.wf(order),
            self.admits_use(ebb, to, order),
            !self.extends_def(ebb, to, order),
            self.is_livein(ebb, order),
        ensures
            self.extended(ebb, to, order).wf(order),
    {
        let after = self.extended(ebb, to, order);
        let d = self.def_ebb(order).unwrap();
        let n = self.livein_index(ebb, order);
        assert(0 <= n < self.liveins.len() && self.liveins[n].covers_ebb(ebb, order));
        let old_n = self.liveins[n];
        let reached = old_n.extended_to(to, order);
        let joins = n + 1 < self.liveins.len() && order.ebb_gap(
            reached.end,
            self.liveins[n + 1].begin,
        );
        self.lemma_use_outside_def_ebb(ebb, to, order);
        assert(old_n.wf(order));
        assert(reached.wf(order));
        // `to` stays in front of every later interval, and on the same side of the
        // defining block as the interval that it widens.
        assert forall|j: int| n < j < self.liveins.len() implies at_inst(order, reached.end)
            < at_ebb(order, (#[trigger] self.liveins[j]).begin) by {
            assert(self.liveins[j].wf(order));
            order.lemma_inst_before_later_header(to, self.liveins[j].begin);
        }
        if at_inst(order, old_n.end) < at_ebb(order, d) {
            order.lemma_inst_before_later_header(to, d);
        }
        assert(at_inst(order, reached.end) < at_ebb(order, d) || order.seq(self.def_end) < at_ebb(
            order,
            reached.begin,
        ));
        if joins {
            let next = self.liveins[n + 1];
            let merged = reached.extended_to(next.end, order);
            assert(next.wf(order));
            assert(merged == Interval { begin: old_n.begin, end: next.end });
            assert(after.liveins.len() == self.liveins.len() - 1);
            assert forall|i: int| 0 <= i < after.liveins.len() implies after.liveins[i] == (if i
                < n {
                self.liveins[i]
            } else if i == n {
                merged
            } else {
                self.liveins[i + 1]
            }) by {}
            if !(at_inst(order, next.end) < at_ebb(order, d)) && !(order.seq(self.def_end)
                < at_ebb(order, old_n.begin)) {
                lemma_point_in_ebb(order, self.def_end, next.begin);
                order.lemma_gap_is_tight(reached.end, next.begin, d);
                order.lemma_inst_after_header(reached.end);
                assert(false);
            }
            assert forall|i: int| 0 <= i < after.liveins.len() implies (
            #[trigger] after.liveins[i]).wf(order) by {
                if i < n {
                    assert(self.liveins[i].wf(order));
                } else if i > n {
                    assert(self.liveins[i + 1].wf(order));
                }
            }
            assert forall|i: int, j: int| 0 <= i < j < after.liveins.len() implies at_inst(
                order,
                (#[trigger] after.liveins[i]).end,
            ) < at_ebb(order, (#[trigger] after.liveins[j]).begin) by {
                let oi = if i <= n { i } else { i + 1 };
                let oj = if j <= n { j } else { j + 1 };
                assert(self.liveins[oi].wf(order));
                assert(self.liveins[oj].wf(order));
                if i == n {
                    assert(at_inst(order, self.liveins[n + 1].end) < at_ebb(
                        order,
                        self.liveins[oj].begin,
                    ));
                } else {
                    assert(at_inst(order, self.liveins[oi].end) < at_ebb(
                        order,
                        self.liveins[oj].begin,
                    ));
                }
            }
            assert forall|i: int| 0 <= i < after.liveins.len() implies {
                ||| at_inst(order, (#[trigger] after.liveins[i]).end) < at_ebb(order, d)
                ||| order.seq(after.def_end) < at_ebb(order, after.liveins[i].begin)
            } by {
                if i < n {
                    assert(self.liveins[i].wf(order));
                } else if i > n {
                    assert(self.liveins[i + 1].wf(order));
                }
            }
        } else {
            assert(after.liveins == self.liveins.update(n, reached));
            assert forall|i: int| 0 <= i < after.liveins.len() implies (
            #[trigger] after.liveins[i]).wf(order) by {
                if i != n {
                    assert(self.liveins[i].wf(order));
                }
            }
            assert forall|i: int, j: int| 0 <= i < j < after.liveins.len() implies at_inst(
                order,
                (#[trigger] after.liveins[i]).end,
            ) < at_ebb(order, (#[trigger] after.liveins[j]).begin) by {
                assert(self.liveins[i].wf(order));
                assert(self.liveins[j].wf(order));
                assert(at_inst(order, self.liveins[i].end) < at_ebb(order, self.liveins[j].begin));
            }
            assert forall|i: int| 0 <= i < after.liveins.len() implies {
                ||| at_inst(order, (#[trigger] after.liveins[i]).end) < at_ebb(order, d)
                ||| order.seq(after.def_end) < at_ebb(order, after.liveins[i].begin)
            } by {
                if i != n {
                    assert(self.liveins[i].wf(order));
                }
            }
        }
    }
}

impl LiveRangeView {
    /// Around a split point for `ebb`, the intervals before it end strictly before
    /// the header of `ebb`, and a use in `ebb` comes before those after it.
    proof fn lemma_split_room<PO: ProgramOrder>(self, ebb: Ebb, to: Inst, order: &PO, n: int)
        requires
            self.wf(order),
            order.inst_ebb(to) == Some(ebb),
            self.splits_at(n, ebb, order),
        ensures
            order.has_ebb(ebb),
            at_ebb(order, ebb) < at_inst(order, to),
            forall|i: int|
                0 <= i < n ==> at_inst(order, (#[trigger] self.liveins[i]).end) < at_ebb(
                    order,
                    ebb,
                ),
            forall|i: int|
                n <= i < self.liveins.len() ==> at_inst(order, to) < at_ebb(
                    order,
                    (#[trigger] self.liveins[i]).begin,
                ),
    {
        order.lemma_inst_after_header(to);
        assert forall|i: int| 0 <= i < n implies at_inst(order, (#[trigger] self.liveins[i]).end)
            < at_ebb(order, ebb) by {
            assert(self.liveins[i].wf(order));
            if at_ebb(order, ebb) <= at_inst(order, self.liveins[i].end) {
                lemma_header_before_inst(order, ebb, self.liveins[i].end);
            }
        }
        assert forall|i: int| n <= i < self.liveins.len() implies at_inst(order, to) < at_ebb(
            order,
            (#[trigger] self.liveins[i]).begin,
        ) by {
            assert(self.liveins[i].wf(order));
            order.lemma_inst_before_later_header(to, self.liveins[i].begin);
        }
    }

    /// Adding a live-in interval for a new block keeps the invariant.
    #[verifier::rlimit(40)]
    proof fn lemma_added_wf<PO: ProgramOrder>(self, ebb: Ebb, to: Inst, order: &PO)
        requires
            self.wf(order),
            self.admits_use(ebb, to, order),
            !self.extends_def(ebb, to, order),
            !self.is_livein(ebb, order),
        ensures
            self.extended(ebb, to, order).wf(order),
    {
        let after = self.extended(ebb, to, order);
        let d = self.def_ebb(order).unwrap();
        let n = self.insertion_index(ebb, order);
        self.lemma_split_exists(ebb, order);
        self.lemma_split_room(ebb, to, order, n);
        self.lemma_use_outside_def_ebb(ebb, to, order);
        let join_prev = n > 0 && order.ebb_gap(self.liveins[n - 1].end, ebb);
        let join_next = n < self.liveins.len() && order.ebb_gap(to, self.liveins[n].begin);
        if n > 0 {
            assert(self.liveins[n - 1].wf(order));
        }
        if n < self.liveins.len() {
            assert(self.liveins[n].wf(order));
        }
        if join_prev {
            // The defining block cannot sit in the gap between the interval before
            // and `ebb`.
            let prev = self.liveins[n - 1];
            order.lemma_gap_is_tight(prev.end, ebb, d);
            order.lemma_inst_after_header(prev.end);
        }
        if join_next {
            // Nor in the gap between `ebb` and the interval after.
            let next = self.liveins[n];
            order.lemma_gap_is_tight(to, next.begin, d);
            lemma_point_in_ebb(order, self.def_end, next.begin);
        }
        if join_prev && join_next {
            let prev = self.liveins[n - 1];
            let next = self.liveins[n];
            let merged = Interval { begin: prev.begin, end: next.end };
            assert(prev.extended_to(next.end, order) == merged);
            assert(after.liveins.len() == self.liveins.len() - 1);
            assert forall|i: int| 0 <= i < after.liveins.len() implies after.liveins[i] == (if i
                < n - 1 {
                self.liveins[i]
            } else if i == n - 1 {
                merged
            } else {
                self.liveins[i + 1]
            }) by {}
            assert forall|i: int| 0 <= i < after.liveins.len() implies (
            #[trigger] after.liveins[i]).wf(order) by {
                if i < n - 1 {
                    assert(self.liveins[i].wf(order));
                } else if i > n - 1 {
                    assert(self.liveins[i + 1].wf(order));
                }
            }
            assert forall|i: int, j: int| 0 <= i < j < after.liveins.len() implies at_inst(
                order,
                (#[trigger] after.liveins[i]).end,
            ) < at_ebb(order, (#[trigger] after.liveins[j]).begin) by {
                let oi = if i < n - 1 { i } else { i + 1 };
                let oj = if j <= n - 1 { j } else { j + 1 };
                assert(self.liveins[oi].wf(order));
                assert(self.liveins[oj].wf(order));
                assert(at_inst(order, self.liveins[oi].end) < at_ebb(
                    order,
                    self.liveins[oj].begin,
                ));
            }
            assert forall|i: int| 0 <= i < after.liveins.len() implies {
                ||| at_inst(order, (#[trigger] after.liveins[i]).end) < at_ebb(order, d)
                ||| order.seq(after.def_end) < at_ebb(order, after.liveins[i].begin)
            } by {
                if i < n - 1 {
                    assert(self.liveins[i].wf(order));
                } else if i > n - 1 {
                    assert(self.liveins[i + 1].wf(order));
                }
            }
        } else if join_prev || join_next {
            let k = if join_prev { n - 1 } else { n };
            let changed = if join_prev {
                Interval { begin: self.liveins[n - 1].begin, end: to }
            } else {
                Interval { begin: ebb, end: self.liveins[n].end }
            };
            if join_prev {
                assert(self.liveins[n - 1].extended_to(to, order) == changed);
            }
            assert(after.liveins == self.liveins.update(k, changed));
            assert(changed.wf(order));
            assert forall|i: int| 0 <= i < after.liveins.len() implies (
            #[trigger] after.liveins[i]).wf(order) by {
                if i != k {
                    assert(self.liveins[i].wf(order));
                }
            }
            assert forall|i: int, j: int| 0 <= i < j < after.liveins.len() implies at_inst(
                order,
                (#[trigger] after.liveins[i]).end,
            ) < at_ebb(order, (#[trigger] after.liveins[j]).begin) by {
                assert(self.liveins[i].wf(order));
                assert(self.liveins[j].wf(order));
                assert(at_inst(order, self.liveins[i].end) < at_ebb(order, self.liveins[j].begin));
            }
            assert forall|i: int| 0 <= i < after.liveins.len() implies {
                ||| at_inst(order, (#[trigger] after.liveins[i]).end) < at_ebb(order, d)
                ||| order.seq(after.def_end) < at_ebb(order, after.liveins[i].begin)
            } by {
                assert(self.liveins[i].wf(order));
            }
        } else {
            let fresh = Interval { begin: ebb, end: to };
            assert(after.liveins == self.liveins.insert(n, fresh));
            assert(fresh.wf(order));
            assert forall|i: int| 0 <= i < after.liveins.len() implies after.liveins[i] == (if i
                < n {
                self.liveins[i]
            } else if i == n {
                fresh
            } else {
                self.liveins[i - 1]
            }) by {}
            assert forall|i: int| 0 <= i < after.liveins.len() implies (
            #[trigger] after.liveins[i]).wf(order) by {
                if i < n {
                    assert(self.liveins[i].wf(order));
                } else if i > n {
                    assert(self.liveins[i - 1].wf(order));
                }
            }
            assert forall|i: int, j: int| 0 <= i < j < after.liveins.len() implies at_inst(
                order,
                (#[trigger] after.liveins[i]).end,
            ) < at_ebb(order, (#[trigger] after.liveins[j]).begin) by {
                if i != n && j != n {
                    let oi = if i < n { i } else { i - 1 };
                    let oj = if j < n { j } else { j - 1 };
                    assert(at_inst(order, self.liveins[oi].end) < at_ebb(
                        order,
                        self.liveins[oj].begin,
                    ));
                } else if i == n {
                    assert(self.liveins[j - 1].wf(order));
                } else {
                    assert(self.liveins[i].wf(order));
                }
            }
            assert forall|i: int| 0 <= i < after.liveins.len() implies {
                ||| at_inst(order, (#[trigger] after.liveins[i]).end) < at_ebb(order, d)
                ||| order.seq(after.def_end) < at_ebb(order, after.liveins[i].begin)
            } by {
                if i < n {
                    assert(self.liveins[i].wf(order));
                } else if i > n {
                    assert(self.liveins[i - 1].wf(order));
                }
            }
        }
    }

    /// Recording a use keeps the invariant: the live-in intervals stay sorted and
    /// disjoint, none of them touches the block of the definition, and the def
    /// interval stays in one block and does not run backwards.
    pub proof fn lemma_extended_wf<PO: ProgramOrder>(self, ebb: Ebb, to: Inst, order: &PO)
        requires
            self.wf(order),
            self.admits_use(ebb, to, order),
        ensures
            self.extended(ebb, to, order).wf(order),
    {
        if self.extends_def(ebb, to, order) {
            self.lemma_def_extended_wf(ebb, to, order);
        } else if self.is_livein(ebb, order) {
            self.lemma_widened_wf(ebb, to, order);
        } else {
            self.lemma_added_wf(ebb, to, order);
        }
    }
}

impl LiveRangeView {
    /// A range that begins and ends at a definition that is inserted in `order`,
    /// and is live-in nowhere, keeps the invariant.
    pub proof fn lemma_dead_wf<PO: ProgramOrder>(self, order: &PO)
        requires
            self.def_begin == self.def_end,
            self.liveins.len() == 0,
            crate::progpoint::pp_ebb(order, self.def_begin) is Some,
        ensures
            self.wf(order),
    {
    }

    /// A use that was recorded is still admitted afterwards.
    pub proof fn lemma_extended_admits_use<PO: ProgramOrder>(self, ebb: Ebb, to: Inst, order: &PO)
        requires
            self.admits_use(ebb, to, order),
        ensures
            self.extended(ebb, to, order).admits_use(ebb, to, order),
            self.extended(ebb, to, order).extends_def(ebb, to, order) == self.extends_def(
                ebb,
                to,
                order,
            ),
    {
    }

    /// After a use in a block other than that of the definition, some live-in
    /// interval holds the block and reaches the use.
    #[verifier::rlimit(40)]
    proof fn lemma_extended_holds_use<PO: ProgramOrder>(self, ebb: Ebb, to: Inst, order: &PO) -> (m:
        int)
        requires
            self.wf(order),
            self.admits_use(ebb, to, order),
            !self.extends_def(ebb, to, order),
        ensures
            0 <= m < self.extended(ebb, to, order).liveins.len(),
            self.extended(ebb, to, order).liveins[m].covers_ebb(ebb, order),
            at_inst(order, to) <= at_inst(order, self.extended(ebb, to, order).liveins[m].end),
    {
        let after = self.extended(ebb, to, order);
        order.lemma_inst_after_header(to);
        if self.is_livein(ebb, order) {
            let n = self.livein_index(ebb, order);
            assert(0 <= n < self.liveins.len() && self.liveins[n].covers_ebb(ebb, order));
            assert(self.liveins[n].wf(order));
            let reached = self.liveins[n].extended_to(to, order);
            if n + 1 < self.liveins.len() && order.ebb_gap(reached.end, self.liveins[n + 1].begin) {
                let next = self.liveins[n + 1];
                assert(next.wf(order));
                assert(at_inst(order, self.liveins[n].end) < at_ebb(order, next.begin));
                order.lemma_inst_before_later_header(to, next.begin);
                assert(after.liveins[n] == reached.extended_to(next.end, order));
            } else {
                assert(after.liveins[n] == reached);
            }
            n
        } else {
            let n = self.insertion_index(ebb, order);
            self.lemma_split_exists(ebb, order);
            self.lemma_split_room(ebb, to, order, n);
            let join_prev = n > 0 && order.ebb_gap(self.liveins[n - 1].end, ebb);
            let join_next = n < self.liveins.len() && order.ebb_gap(to, self.liveins[n].begin);
            if n > 0 {
                assert(self.liveins[n - 1].wf(order));
            }
            if n < self.liveins.len() {
                assert(self.liveins[n].wf(order));
            }
            if join_prev && join_next {
                assert(after.liveins[n - 1] == self.liveins[n - 1].extended_to(
                    self.liveins[n].end,
                    order,
                ));
                n - 1
            } else if join_prev {
                assert(after.liveins[n - 1] == self.liveins[n - 1].extended_to(to, order));
                n - 1
            } else if join_next {
                assert(after.liveins[n] == Interval { begin: ebb, end: self.liveins[n].end });
                n
            } else {
                assert(after.liveins[n] == Interval { begin: ebb, end: to });
                n
            }
        }
    }

    /// Recording the same use a second time changes nothing and finds no new
    /// live-in block, where the intervals were joined as far as they could be.
    pub proof fn lemma_extended_idempotent<PO: ProgramOrder>(self, ebb: Ebb, to: Inst, order: &PO)
        requires
            self.wf(order),
            self.coalesced(order),
            self.admits_use(ebb, to, order),
        ensures
            self.extended(ebb, to, order).extended(ebb, to, order) == self.extended(ebb, to, order),
            !self.extended(ebb, to, order).adds_livein(ebb, to, order),
    {
        let once = self.extended(ebb, to, order);
        self.lemma_extended_wf(ebb, to, order);
        self.lemma_extended_coalesced(ebb, to, order);
        self.lemma_extended_admits_use(ebb, to, order);
        if self.extends_def(ebb, to, order) {
        } else {
            let m = self.lemma_extended_holds_use(ebb, to, order);
            once.lemma_livein_index(ebb, order, m);
            assert(once.liveins[m].extended_to(to, order) == once.liveins[m]);
            assert(once.liveins_widened(ebb, to, order) =~= once.liveins);
        }
    }

    /// Widening an interval leaves the intervals joined as far as they can be.
    proof fn lemma_widened_coalesced<PO: ProgramOrder>(self, ebb: Ebb, to: Inst, order: &PO)
        requires
            self.wf(order),
            self.admits_use(ebb, to, order),
            self.coalesced(order),
            !self.extends_def(ebb, to, order),
            self.is_livein(ebb, order),
        ensures
            self.extended(ebb, to, order).coalesced(order),
    {
        let n = self.livein_index(ebb, order);
        assert(0 <= n < self.liveins.len() && self.liveins[n].covers_ebb(ebb, order));
        let old_n = self.liveins[n];
        assert(old_n.wf(order));
        let reached = old_n.extended_to(to, order);
        if n > 0 {
            let prev = self.liveins[n - 1];
        }
        if n + 1 < self.liveins.len() && order.ebb_gap(reached.end, self.liveins[n + 1].begin) {
            let next = self.liveins[n + 1];
            assert(next.wf(order));
            assert(at_inst(order, old_n.end) < at_ebb(order, next.begin));
            order.lemma_inst_after_header(to);
            order.lemma_inst_before_later_header(to, next.begin);
            let merged = reached.extended_to(next.end, order);
            assert(merged.end == next.end);
            lemma_apart_merge(self.liveins, n, merged, order);
        } else {
            lemma_apart_update(self.liveins, n, reached, order);
        }
    }

    /// Adding an interval leaves the intervals joined as far as they can be.
    proof fn lemma_added_coalesced<PO: ProgramOrder>(self, ebb: Ebb, to: Inst, order: &PO)
        requires
            self.wf(order),
            self.admits_use(ebb, to, order),
            self.coalesced(order),
            !self.extends_def(ebb, to, order),
            !self.is_livein(ebb, order),
        ensures
            self.extended(ebb, to, order).coalesced(order),
    {
        let n = self.insertion_index(ebb, order);
        self.lemma_split_exists(ebb, order);
        let join_prev = n > 0 && order.ebb_gap(self.liveins[n - 1].end, ebb);
        let join_next = n < self.liveins.len() && order.ebb_gap(to, self.liveins[n].begin);
        self.lemma_split_room(ebb, to, order, n);
        if n > 0 {
            assert(self.liveins[n - 1].wf(order));
        }
        if n < self.liveins.len() {
            assert(self.liveins[n].wf(order));
        }
        if n > 1 {
            let before = self.liveins[n - 2];
        }
        if join_prev && join_next {
            let merged = Interval { begin: self.liveins[n - 1].begin, end: self.liveins[n].end };
            assert(self.liveins[n - 1].extended_to(self.liveins[n].end, order) == merged);
            lemma_apart_merge(self.liveins, n - 1, merged, order);
        } else if join_prev {
            let changed = Interval { begin: self.liveins[n - 1].begin, end: to };
            assert(self.liveins[n - 1].extended_to(to, order) == changed);
            lemma_apart_update(self.liveins, n - 1, changed, order);
        } else if join_next {
            let changed = Interval { begin: ebb, end: self.liveins[n].end };
            lemma_apart_update(self.liveins, n, changed, order);
        } else {
            lemma_apart_insert(self.liveins, n, Interval { begin: ebb, end: to }, order);
        }
    }

    /// Intervals that are joined as far as they can be stay so when a use is
    /// recorded: what one use brings together is brought together at once, and
    /// no interval is left that could be joined to its neighbour.
    pub proof fn lemma_extended_coalesced<PO: ProgramOrder>(
        self,
        ebb: Ebb,
        to: Inst,
        order: &PO,
    )
        requires
            self.wf(order),
            self.admits_use(ebb, to, order),
            self.coalesced(order),
        ensures
            self.extended(ebb, to, order).coalesced(order),
    {
        if self.extends_def(ebb, to, order) {
        } else if self.is_livein(ebb, order) {
            self.lemma_widened_coalesced(ebb, to, order);
        } else {
            self.lemma_added_coalesced(ebb, to, order);
        }
    }

    /// A live range only grows: every program point inside it before a use is
    /// recorded is inside it afterwards.
    #[verifier::rlimit(40)]
    pub proof fn lemma_extended_monotonic<PO: ProgramOrder>(
        self,
        ebb: Ebb,
        to: Inst,
        order: &PO,
        pp: ProgramPoint,
    )
        requires
            self.wf(order),
            self.admits_use(ebb, to, order),
            self.covers(pp, order),
        ensures
            self.extended(ebb, to, order).covers(pp, order),
    {
        let after = self.extended(ebb, to, order);
        if order.seq(self.def_begin) <= order.seq(pp) <= order.seq(self.def_end) {
        } else {
            let i = choose|i: int|
                0 <= i < self.liveins.len() && (#[trigger] self.liveins[i]).covers(pp, order);
            assert(self.liveins[i].wf(order));
            if self.extends_def(ebb, to, order) {
                assert(after.liveins[i].covers(pp, order));
            } else if self.is_livein(ebb, order) {
                let n = self.livein_index(ebb, order);
                assert(0 <= n < self.liveins.len() && self.liveins[n].covers_ebb(ebb, order));
                assert(self.liveins[n].wf(order));
                let reached = self.liveins[n].extended_to(to, order);
                if n + 1 < self.liveins.len() && order.ebb_gap(
                    reached.end,
                    self.liveins[n + 1].begin,
                ) {
                    assert(self.liveins[n + 1].wf(order));
                    order.lemma_inst_after_header(to);
                    order.lemma_inst_before_later_header(to, self.liveins[n + 1].begin);
                    assert(at_inst(order, self.liveins[n].end) < at_ebb(
                        order,
                        self.liveins[n + 1].begin,
                    ));
                    let k = if i <= n { i } else { i - 1 };
                    assert(after.liveins[k].covers(pp, order));
                } else {
                    assert(after.liveins[i].covers(pp, order));
                }
            } else {
                let n = self.insertion_index(ebb, order);
                self.lemma_split_exists(ebb, order);
                self.lemma_split_room(ebb, to, order, n);
                let join_prev = n > 0 && order.ebb_gap(self.liveins[n - 1].end, ebb);
                let join_next = n < self.liveins.len() && order.ebb_gap(
                    to,
                    self.liveins[n].begin,
                );
                if n > 0 {
                    assert(self.liveins[n - 1].wf(order));
                }
                if n < self.liveins.len() {
                    assert(self.liveins[n].wf(order));
                }
                if join_prev && join_next {
                    let k = if i < n { i } else { i - 1 };
                    assert(after.liveins[k].covers(pp, order));
                } else if join_prev || join_next {
                    assert(after.liveins[i].covers(pp, order));
                } else {
                    let k = if i < n { i } else { i + 1 };
                    assert(after.liveins[k].covers(pp, order));
                }
            }
        }
    }

    /// After a use is recorded, the live range holds the using instruction, and
    /// the value is live-in to the block of the use unless that is the block of
    /// the definition.
    pub proof fn lemma_extended_covers_use<PO: ProgramOrder>(self, ebb: Ebb, to: Inst, order: &PO)
        requires
            self.wf(order),
            self.admits_use(ebb, to, order),
        ensures
            self.extended(ebb, to, order).covers(ProgramPoint::Inst(to), order),
            !self.extends_def(ebb, to, order) ==> self.extended(ebb, to, order).is_livein(
                ebb,
                order,
            ),
    {
        let after = self.extended(ebb, to, order);
        if !self.extends_def(ebb, to, order) {
            order.lemma_inst_after_header(to);
            let m = self.lemma_extended_holds_use(ebb, to, order);
            assert(after.liveins[m].covers(ProgramPoint::Inst(to), order));
        }
    }

    /// Moving the definition inside its block, not past the end of the def
    /// interval, keeps the invariant.
    pub proof fn lemma_move_def_wf<PO: ProgramOrder>(self, def: ProgramPoint, order: &PO)
        requires
            self.wf(order),
            crate::progpoint::pp_ebb(order, def) == self.def_ebb(order),
            order.seq(def) <= order.seq(self.def_end),
        ensures
            (LiveRangeView { def_begin: def, ..self }).wf(order),
    {
        let moved = LiveRangeView { def_begin: def, ..self };
        assert forall|i: int| 0 <= i < moved.liveins.len() implies (#[trigger] moved.liveins[i]).wf(
            order,
        ) by {
            assert(self.liveins[i].wf(order));
        }
    }
}

impl Interval {
    /// Extend the interval so that it reaches `to`, if that makes it longer.
    pub fn extend_to<PO: ProgramOrder>(&mut self, to: Inst, order: &PO)
        ensures
            *final(self) == old(self).extended_to(to, order),
    {
        if precedes(order, ProgramPoint::Inst(self.end), ProgramPoint::Inst(to)) {
            self.end = to;
        }
    }
}

impl View for LiveRange {
    type V = LiveRangeView;

    closed spec fn view(&self) -> LiveRangeView {
        LiveRangeView {
            value: self.value,
            affinity: self.affinity,
            def_begin: self.def_begin,
            def_end: self.def_end,
            liveins: self.liveins@,
        }
    }
}

/// What a search for the live-in interval of `ebb` may answer: `Ok` with the index
/// of the interval that holds `ebb`, or `Err` with the index at which such an
/// interval belongs.
pub open spec fn is_search_result<PO: ProgramOrder>(
    lr: LiveRangeView,
    ebb: Ebb,
    order: &PO,
    found: Result<usize, usize>,
) -> bool {
    match found {
        Ok(n) => n < lr.liveins.len() && lr.liveins[n as int].covers_ebb(ebb, order),
        Err(n) => lr.splits_at(n as int, ebb, order),
    }
}

impl LiveRange {
    /// Create the live range of `value`, defined at `def`.
    ///
    /// The range is dead at first: it begins and ends at `def`, and the value is not
    /// live-in anywhere.
    pub fn new(value: Value, def: ProgramPoint, affinity: Affinity) -> (r: LiveRange)
        ensures
            r@ == (LiveRangeView {
                value,
                affinity,
                def_begin: def,
                def_end: def,
                liveins: Seq::empty(),
            }),
    {
        LiveRange { value, affinity, def_begin: def, def_end: def, liveins: Vec::new() }
    }

    /// Find the live-in interval that holds `ebb`.
    ///
    /// Returns `Ok(n)` if `liveins[n]` holds `ebb`, else `Err(n)` with the index
    /// where an interval for `ebb` belongs.
    #[verifier::rlimit(40)]
    fn find_ebb_interval<PO: ProgramOrder>(&self, ebb: Ebb, order: &PO) -> (r: Result<
        usize,
        usize,
    >)
        requires
            self@.liveins_ordered(order),
        ensures
            is_search_result(self@, ebb, order, r),
    {
        let ghost lr = self@;
        // Find the first interval that begins after `ebb`.
        let mut lo: usize = 0;
        let mut hi: usize = self.liveins.len();
        while lo < hi
            invariant
                lr == self@,
                lr.liveins_ordered(order),
                lo <= hi <= lr.liveins.len(),
                forall|i: int|
                    0 <= i < lo ==> at_ebb(order, (#[trigger] lr.liveins[i]).begin) <= at_ebb(
                        order,
                        ebb,
                    ),
                forall|i: int|
                    hi <= i < lr.liveins.len() ==> at_ebb(order, ebb) < at_ebb(
                        order,
                        (#[trigger] lr.liveins[i]).begin,
                    ),
            decreases hi - lo,
        {
            let mid = lo + (hi - lo) / 2;
            let probe = self.liveins[mid];
            proof {
                assert(probe == lr.liveins[mid as int]);
                assert(probe.wf(order));
                assert forall|i: int| 0 <= i < mid implies at_ebb(
                    order,
                    (#[trigger] lr.liveins[i]).begin,
                ) < at_ebb(order, probe.begin) by {
                    assert(lr.liveins[i].wf(order));
                }
                assert forall|i: int| mid < i < lr.liveins.len() implies at_ebb(
                    order,
                    probe.begin,
                ) < at_ebb(order, (#[trigger] lr.liveins[i]).begin) by {}
            }
            if precedes(order, ProgramPoint::Ebb(ebb), ProgramPoint::Ebb(probe.begin)) {
                hi = mid;
            } else {
                lo = mid + 1;
            }
        }
        // The interval just before may hold `ebb`.
        if lo > 0 {
            let prev = self.liveins[lo - 1];
            assert(prev == lr.liveins[lo - 1]);
            if precedes(order, ProgramPoint::Ebb(ebb), ProgramPoint::Inst(prev.end)) {
                return Ok(lo - 1);
            }
            proof {
                assert forall|i: int| 0 <= i < lo implies at_inst(
                    order,
                    (#[trigger] lr.liveins[i]).end,
                ) <= at_ebb(order, ebb) by {
                    if i < lo - 1 {
                        assert(prev.wf(order));
                    }
                }
            }
        }
        Err(lo)
    }
}

impl LiveRange {
    /// Record that the value is used at `to`, an instruction of `ebb`.
    ///
    /// A use in the block of the definition extends the def interval. A use in a
    /// block where the value is live-in already extends that live-in interval. A
    /// use in any other block makes the value live-in there. Intervals that come to
    /// be separated only by the gap between two consecutive blocks are joined.
    ///
    /// Returns true exactly when the value was not known to be live in `ebb` before:
    /// the caller then has to carry the use on to the predecessors of `ebb`.
    #[verifier::rlimit(40)]
    pub fn extend_in_ebb<PO: ProgramOrder>(&mut self, ebb: Ebb, to: Inst, order: &PO) -> (r: bool)
        requires
            old(self)@.wf(order),
            old(self)@.admits_use(ebb, to, order),
            old(self)@.liveins.len() < usize::MAX,
        ensures
            final(self)@ == old(self)@.extended(ebb, to, order),
            r == old(self)@.adds_livein(ebb, to, order),
            final(self)@.wf(order),
            final(self)@.covers(ProgramPoint::Inst(to), order),
            r ==> final(self)@.is_livein(ebb, order),
            old(self)@.coalesced(order) ==> final(self)@.coalesced(order),
    {
        let ghost before = self@;
        proof {
            before.lemma_extended_wf(ebb, to, order);
            before.lemma_extended_covers_use(ebb, to, order);
            if before.coalesced(order) {
                before.lemma_extended_coalesced(ebb, to, order);
            }
        }
        let to_pp = ProgramPoint::Inst(to);
        // First see whether the use extends the def interval.
        if !precedes(order, self.def_end, ProgramPoint::Ebb(ebb)) && !precedes(
            order,
            to_pp,
            self.def_begin,
        ) {
            if precedes(order, self.def_end, to_pp) {
                self.def_end = to_pp;
            }
            return false;
        }
        match self.find_ebb_interval(ebb, order) {
            Ok(n) => {
                proof {
                    before.lemma_livein_index(ebb, order, n as int);
                }
                // An interval holds `ebb`: it only has to reach `to`.
                let mut reached = self.liveins[n];
                reached.extend_to(to, order);
                self.liveins.set(n, reached);
                // Where the interval now ends at the end of a block and the
                // value lives on in the next block, the two intervals become one.
                if n + 1 < self.liveins.len() {
                    let next = self.liveins[n + 1];
                    if order.is_ebb_gap(reached.end, next.begin) {
                        reached.extend_to(next.end, order);
                        self.liveins.set(n, reached);
                        self.liveins.remove(n + 1);
                    }
                }
                assert(self@.liveins =~= before.liveins_widened(ebb, to, order));
                false
            },
            Err(n) => {
                proof {
                    before.lemma_split_unique(ebb, order, n as int);
                }
                // No interval holds `ebb`: add one at `n`, or join the new piece
                // to the interval before or after it.
                let join_prev = n > 0 && order.is_ebb_gap(self.liveins[n - 1].end, ebb);
                let join_next = n < self.liveins.len() && order.is_ebb_gap(
                    to,
                    self.liveins[n].begin,
                );
                if join_prev && join_next {
                    let end = self.liveins[n].end;
                    let mut prev = self.liveins[n - 1];
                    prev.extend_to(end, order);
                    self.liveins.set(n - 1, prev);
                    self.liveins.remove(n);
                } else if join_prev {
                    let mut prev = self.liveins[n - 1];
                    prev.extend_to(to, order);
                    self.liveins.set(n - 1, prev);
                } else if join_next {
                    let end = self.liveins[n].end;
                    self.liveins.set(n, Interval { begin: ebb, end });
                } else {
                    self.liveins.insert(n, Interval { begin: ebb, end: to });
                }
                assert(self@.liveins =~= before.liveins_added(ebb, to, order));
                true
            },
        }
    }

    /// Is this the live range of a dead value, one that is defined and never used?
    pub fn is_dead(&self) -> (r: bool)
        ensures
            r == (self@.def_begin == self@.def_end),
    {
        self.def_begin == self.def_end
    }

    /// Is this a local live range, one that stays in the block of the definition?
    pub fn is_local(&self) -> (r: bool)
        ensures
            r == (self@.liveins.len() == 0),
    {
        self.liveins.len() == 0
    }

    /// The program point where the value is defined.
    pub fn def(&self) -> (r: ProgramPoint)
        ensures
            r == self@.def_begin,
    {
        self.def_begin
    }

    /// Move the definition of the value to another program point.
    ///
    /// Nothing is checked: it is on the caller to stay in the same block and not to
    /// pass `def_local_end()`.
    pub fn move_def_locally(&mut self, def: ProgramPoint)
        ensures
            final(self)@ == (LiveRangeView { def_begin: def, ..old(self)@ }),
    {
        self.def_begin = def;
    }

    /// The end of the def interval, in the block of the definition.
    pub fn def_local_end(&self) -> (r: ProgramPoint)
        ensures
            r == self@.def_end,
    {
        self.def_end
    }

    /// The end of the live range in `ebb`, where the value is live-in to `ebb`.
    ///
    /// The instruction that is returned need not belong to `ebb`: an interval that
    /// spans several blocks ends in the last of them.
    pub fn livein_local_end<PO: ProgramOrder>(&self, ebb: Ebb, order: &PO) -> (r: Option<Inst>)
        requires
            self@.liveins_ordered(order),
        ensures
            r == self@.livein_end(ebb, order),
    {
        match self.find_ebb_interval(ebb, order) {
            Ok(n) => {
                proof {
                    self@.lemma_livein_index(ebb, order, n as int);
                }
                Some(self.liveins[n].end)
            },
            Err(n) => {
                proof {
                    self@.lemma_split_unique(ebb, order, n as int);
                }
                None
            },
        }
    }

    /// All the live-in intervals, in program order.
    pub fn liveins(&self) -> (r: &[Interval])
        ensures
            r@ == self@.liveins,
    {
        self.liveins.as_slice()
    }

    /// Does the live range overlap a definition at `def` in `ebb`?
    ///
    /// It does where `def` lies in the def interval, its end left out, or at or
    /// before the end of the live-in interval of `ebb`.
    pub fn overlaps_def<PO: ProgramOrder>(&self, def: ProgramPoint, ebb: Ebb, order: &PO) -> (r:
        bool)
        requires
            self@.liveins_ordered(order),
        ensures
            r == (order.seq(self@.def_begin) <= order.seq(def) < order.seq(self@.def_end) || (
            match self@.livein_end(ebb, order) {
                Some(end) => order.seq(def) <= at_inst(order, end),
                None => false,
            })),
    {
        if !precedes(order, def, self.def_begin) && precedes(order, def, self.def_end) {
            return true;
        }
        match self.livein_local_end(ebb, order) {
            Some(end) => !precedes(order, ProgramPoint::Inst(end), def),
            None => false,
        }
    }

    /// Does the live range reach a use at `user` in `ebb`?
    ///
    /// It does where `user` lies in the def interval after the definition, or at or
    /// before the end of the live-in interval of `ebb`.
    pub fn reaches_use<PO: ProgramOrder>(&self, user: Inst, ebb: Ebb, order: &PO) -> (r: bool)
        requires
            self@.liveins_ordered(order),
        ensures
            r == (order.seq(self@.def_begin) < at_inst(order, user) <= order.seq(self@.def_end)
                || (match self@.livein_end(ebb, order) {
                Some(end) => at_inst(order, user) <= at_inst(order, end),
                None => false,
            })),
    {
        let user_pp = ProgramPoint::Inst(user);
        if precedes(order, self.def_begin, user_pp) && !precedes(order, self.def_end, user_pp) {
            return true;
        }
        match self.livein_local_end(ebb, order) {
            Some(end) => !precedes(order, ProgramPoint::Inst(end), user_pp),
            None => false,
        }
    }

    /// Is the value killed at `user` in `ebb`: does its live range in that block end there?
    pub fn killed_at<PO: ProgramOrder>(&self, user: Inst, ebb: Ebb, order: &PO) -> (r: bool)
        requires
            self@.liveins_ordered(order),
        ensures
            r == (self@.def_end == ProgramPoint::Inst(user) || self@.livein_end(ebb, order)
                == Some(user)),
    {
        self.def_end == ProgramPoint::Inst(user) || self.livein_local_end(ebb, order) == Some(user)
    }

    /// The value that this live range describes.
    pub fn key(&self) -> (r: Value)
        ensures
            r == self@.value,
    {
        self.value
    }
}

} // verus!
