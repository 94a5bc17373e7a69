//! Running statistics over every mempool transaction seen since start-up.
//!
//! The txids seen are kept in a `Vec<String>` with no duplicates rather than
//! a `HashSet<String>`: vstd specifies `HashSet` only for keys that obey its
//! key model, and `String` is not among them, so nothing could be proved of
//! lookups. The counts per flow type are kept in a `Vec<u32>` indexed by rank
//! rather than a `BTreeMap<String, u32>` keyed by label: the labels are a
//! fixed set of fourteen, rank order is proved to be label order
//! (`lemma_rows_in_label_order`), and a map keyed by `String` would again give
//! nothing that Verus can reason about.

use vstd::prelude::*;
use crate::flow::{FlowType, TxClass, FLOW_TYPE_COUNT, flow_rank, flow_at_rank, flow_label,
    lemma_rank_roundtrip, is_deshielding, is_shielding, is_private};
use crate::labels::{lex_lt, starts_with, lemma_rank_order_is_label_order, lemma_groups_by_label_prefix};

verus! {

/// Abstract state of a `History`.
pub struct HistoryView {
    /// The txids counted so far, in the order they were first seen.
    pub seen: Seq<Seq<char>>,
    /// How many counted transactions had each flow type, indexed by rank.
    pub counts: Seq<nat>,
    /// How many transactions were counted.
    pub total: nat,
}

pub open spec fn seq_sum(s: Seq<nat>) -> nat
    decreases s.len(),
{
    if s.len() == 0 {
        0
    } else {
        seq_sum(s.drop_last()) + s.last()
    }
}

/// The consistency of a history: every txid is counted once, under one flow
/// type.
pub open spec fn history_wf(h: HistoryView) -> bool {
    &&& h.counts.len() == FLOW_TYPE_COUNT
    &&& h.seen.no_duplicates()
    &&& h.seen.len() == h.total
    &&& seq_sum(h.counts) == h.total
}

pub open spec fn empty_history() -> HistoryView {
    HistoryView { seen: Seq::empty(), counts: Seq::new(FLOW_TYPE_COUNT as nat, |i: int| 0nat), total: 0 }
}

/// Counts a transaction unless its txid was counted before.
pub open spec fn record_one(h: HistoryView, txid: Seq<char>, f: FlowType) -> HistoryView {
    if h.seen.contains(txid) {
        h
    } else {
        HistoryView {
            seen: h.seen.push(txid),
            counts: h.counts.update(flow_rank(f) as int, h.counts[flow_rank(f) as int] + 1),
            total: h.total + 1,
        }
    }
}

/// Counts each (txid, flow type) in order.
pub open spec fn record_all(h: HistoryView, events: Seq<(Seq<char>, FlowType)>) -> HistoryView
    decreases events.len(),
{
    if events.len() == 0 {
        h
    } else {
        record_one(record_all(h, events.drop_last()), events.last().0, events.last().1)
    }
}

pub open spec fn class_key(c: TxClass) -> (Seq<char>, FlowType) {
    (c.txid@, c.flow)
}

pub open spec fn class_keys(classes: Seq<TxClass>) -> Seq<(Seq<char>, FlowType)> {
    classes.map_values(|c: TxClass| class_key(c))
}

/// The rows `(flow type, count)` of the first `k` ranks whose count is
/// positive, in rank order; the Transparent row only when asked for.
pub open spec fn rows_upto(counts: Seq<nat>, k: int, include_transparent: bool) -> Seq<(FlowType, nat)>
    decreases k,
{
    if k <= 0 {
        Seq::empty()
    } else {
        let prev = rows_upto(counts, k - 1, include_transparent);
        let f = flow_at_rank(k - 1);
        if counts[k - 1] > 0 && (include_transparent || f != FlowType::Transparent) {
            prev.push((f, counts[k - 1]))
        } else {
            prev
        }
    }
}

pub open spec fn rows_of(counts: Seq<nat>, include_transparent: bool) -> Seq<(FlowType, nat)> {
    rows_upto(counts, FLOW_TYPE_COUNT as int, include_transparent)
}

/// Number of transactions of each flow type in a list, indexed by rank.
pub open spec fn flow_counts(flows: Seq<FlowType>) -> Seq<nat>
    decreases flows.len(),
{
    if flows.len() == 0 {
        Seq::new(FLOW_TYPE_COUNT as nat, |i: int| 0nat)
    } else {
        let prev = flow_counts(flows.drop_last());
        let r = flow_rank(flows.last()) as int;
        prev.update(r, prev[r] + 1)
    }
}

pub open spec fn deshielding_total(counts: Seq<nat>) -> nat {
    counts[1] + counts[2] + counts[3] + counts[4] + counts[5]
}

pub open spec fn private_total(counts: Seq<nat>) -> nat {
    counts[6] + counts[7] + counts[8]
}

pub open spec fn shielding_total(counts: Seq<nat>) -> nat {
    counts[9] + counts[10] + counts[11]
}

/// Totals of the three groups of shielded flow types.
#[derive(Debug, Clone, Copy, PartialEq, Eq, Structural)]
pub struct GroupTotals {
    pub deshielding: u32,
    pub shielding: u32,
    pub private: u32,
}

proof fn lemma_sum_update(s: Seq<nat>, i: int, v: nat)
    requires
        0 <= i < s.len(),
    ensures
        seq_sum(s.update(i, v)) == seq_sum(s) - s[i] + v,
    decreases s.len(),
{
    if i == s.len() - 1 {
        assert(s.update(i, v).drop_last() =~= s.drop_last());
    } else {
        assert(s.update(i, v).drop_last() =~= s.drop_last().update(i, v));
        lemma_sum_update(s.drop_last(), i, v);
    }
}

proof fn lemma_elem_le_sum(s: Seq<nat>, i: int)
    requires
        0 <= i < s.len(),
    ensures
        s[i] <= seq_sum(s),
    decreases s.len(),
{
    if i < s.len() - 1 {
        lemma_elem_le_sum(s.drop_last(), i);
    }
}

proof fn lemma_sum_of_fourteen(s: Seq<nat>)
    requires
        s.len() == FLOW_TYPE_COUNT,
    ensures
        seq_sum(s) == s[0] + s[1] + s[2] + s[3] + s[4] + s[5] + s[6] + s[7] + s[8] + s[9] + s[10]
            + s[11] + s[12] + s[13],
{
    reveal_with_fuel(seq_sum, 15);
}

proof fn lemma_zero_sum(n: nat)
    ensures
        seq_sum(Seq::new(n, |i: int| 0nat)) == 0,
    decreases n,
{
    if n > 0 {
        assert(Seq::new(n, |i: int| 0nat).drop_last() =~= Seq::new((n - 1) as nat, |i: int| 0nat));
        lemma_zero_sum((n - 1) as nat);
    }
}

proof fn lemma_record_one_wf(h: HistoryView, txid: Seq<char>, f: FlowType)
    requires
        history_wf(h),
    ensures
        history_wf(record_one(h, txid, f)),
        record_one(h, txid, f).total >= h.total,
{
    if !h.seen.contains(txid) {
        let r = flow_rank(f) as int;
        lemma_sum_update(h.counts, r, h.counts[r] + 1);
        assert(h.seen.push(txid).no_duplicates()) by {
            assert forall|a: int, b: int|
                0 <= a < b < h.seen.len() + 1 implies h.seen.push(txid)[a] != h.seen.push(txid)[b] by {
                if b == h.seen.len() {
                    assert(h.seen.contains(h.seen[a]));
                }
            }
        }
    }
}

/// A history stays consistent whatever is recorded.
pub proof fn lemma_record_preserves_wf(h: HistoryView, events: Seq<(Seq<char>, FlowType)>)
    requires
        history_wf(h),
    ensures
        history_wf(record_all(h, events)),
        record_all(h, events).total >= h.total,
    decreases events.len(),
{
    if events.len() > 0 {
        lemma_record_preserves_wf(h, events.drop_last());
        lemma_record_one_wf(record_all(h, events.drop_last()), events.last().0, events.last().1);
    }
}

/// The total after recording a prefix of the events is at most the total
/// after recording all of them.
proof fn lemma_total_prefix(h: HistoryView, events: Seq<(Seq<char>, FlowType)>, k: int)
    requires
        0 <= k <= events.len(),
    ensures
        record_all(h, events.take(k)).total <= record_all(h, events).total,
    decreases events.len(),
{
    if k == events.len() {
        assert(events.take(k) =~= events);
    } else {
        assert(events.drop_last().take(k) =~= events.take(k));
        lemma_total_prefix(h, events.drop_last(), k);
    }
}

/// After recording, the txids seen are those seen before and those of the
/// events.
pub proof fn lemma_record_seen(h: HistoryView, events: Seq<(Seq<char>, FlowType)>)
    ensures
        record_all(h, events).seen.to_set() =~= h.seen.to_set().union(
            events.map_values(|e: (Seq<char>, FlowType)| e.0).to_set(),
        ),
    decreases events.len(),
{
    let ids = events.map_values(|e: (Seq<char>, FlowType)| e.0);
    if events.len() == 0 {
        assert(ids.to_set() =~= Set::empty());
    } else {
        let rest = events.drop_last();
        let rest_ids = rest.map_values(|e: (Seq<char>, FlowType)| e.0);
        lemma_record_seen(h, rest);
        let prev = record_all(h, rest);
        let x = events.last().0;
        assert(ids =~= rest_ids.push(x));
        assert(ids.to_set() =~= rest_ids.to_set().insert(x)) by {
            assert forall|y| ids.to_set().contains(y) <==> rest_ids.to_set().insert(x).contains(y) by {
                if ids.to_set().contains(y) && y != x {
                    let i = choose|i: int| 0 <= i < ids.len() && ids[i] == y;
                    assert(rest_ids[i] == y);
                }
                if rest_ids.to_set().contains(y) {
                    let i = choose|i: int| 0 <= i < rest_ids.len() && rest_ids[i] == y;
                    assert(ids[i] == y);
                }
                if y == x {
                    assert(ids[ids.len() - 1] == x);
                }
            }
        }
        if !prev.seen.contains(x) {
            assert(prev.seen.push(x).to_set() =~= prev.seen.to_set().insert(x)) by {
                assert forall|y| prev.seen.push(x).to_set().contains(y) <==> prev.seen.to_set().insert(x).contains(y) by {
                    if prev.seen.push(x).to_set().contains(y) && y != x {
                        let i = choose|i: int| 0 <= i < prev.seen.len() + 1 && prev.seen.push(x)[i] == y;
                        assert(prev.seen[i] == y);
                    }
                    if prev.seen.to_set().contains(y) {
                        let i = choose|i: int| 0 <= i < prev.seen.len() && prev.seen[i] == y;
                        assert(prev.seen.push(x)[i] == y);
                    }
                    if y == x {
                        assert(prev.seen.push(x)[prev.seen.len() as int] == x);
                    }
                }
            }
        }
    }
}

/// Recording events whose txids were all seen before changes nothing.
proof fn lemma_record_all_seen(h: HistoryView, events: Seq<(Seq<char>, FlowType)>)
    requires
        forall|i: int| 0 <= i < events.len() ==> h.seen.contains(#[trigger] events[i].0),
    ensures
        record_all(h, events) == h,
    decreases events.len(),
{
    if events.len() > 0 {
        let rest = events.drop_last();
        assert forall|i: int| 0 <= i < rest.len() implies h.seen.contains(#[trigger] rest[i].0) by {
            assert(rest[i] == events[i]);
        }
        lemma_record_all_seen(h, rest);
        assert(h.seen.contains(events[events.len() - 1].0));
    }
}

/// Every txid of the recorded events is seen afterwards.
proof fn lemma_record_sees_events(h: HistoryView, events: Seq<(Seq<char>, FlowType)>)
    ensures
        forall|i: int| 0 <= i < events.len() ==> record_all(h, events).seen.contains(#[trigger] events[i].0),
    decreases events.len(),
{
    if events.len() > 0 {
        let rest = events.drop_last();
        let prev = record_all(h, rest);
        lemma_record_sees_events(h, rest);
        let x = events.last().0;
        let f = events.last().1;
        assert forall|i: int| 0 <= i < events.len() implies record_all(h, events).seen.contains(#[trigger] events[i].0) by {
            if i < events.len() - 1 {
                assert(rest[i] == events[i]);
                assert(prev.seen.contains(events[i].0));
                if !prev.seen.contains(x) {
                    let k = choose|k: int| 0 <= k < prev.seen.len() && prev.seen[k] == events[i].0;
                    assert(prev.seen.push(x)[k] == events[i].0);
                }
            } else if !prev.seen.contains(x) {
                assert(prev.seen.push(x)[prev.seen.len() as int] == x);
            }
        }
    }
}

/// Recording the same batch a second time changes nothing: each transaction
/// is counted at most once.
pub proof fn lemma_record_idempotent(h: HistoryView, events: Seq<(Seq<char>, FlowType)>)
    ensures
        record_all(record_all(h, events), events) == record_all(h, events),
{
    lemma_record_sees_events(h, events);
    lemma_record_all_seen(record_all(h, events), events);
}

/// Recording two batches one after the other is recording them as one.
pub proof fn lemma_record_concat(
    h: HistoryView,
    first: Seq<(Seq<char>, FlowType)>,
    second: Seq<(Seq<char>, FlowType)>,
)
    ensures
        record_all(h, first + second) == record_all(record_all(h, first), second),
    decreases second.len(),
{
    if second.len() == 0 {
        assert(first + second =~= first);
    } else {
        assert((first + second).drop_last() =~= first + second.drop_last());
        lemma_record_concat(h, first, second.drop_last());
    }
}

/// Every counted transaction falls in exactly one of the three shielded
/// groups, or is Transparent, zero-net or complex.
pub proof fn lemma_groups_partition_total(h: HistoryView)
    requires
        history_wf(h),
    ensures
        deshielding_total(h.counts) + shielding_total(h.counts) + private_total(h.counts)
            + h.counts[flow_rank(FlowType::Transparent) as int]
            + h.counts[flow_rank(FlowType::ZeroNet) as int]
            + h.counts[flow_rank(FlowType::ComplexMixed) as int] == h.total,
{
    lemma_sum_of_fourteen(h.counts);
}

proof fn lemma_rows_upto(counts: Seq<nat>, k: int, include_transparent: bool)
    requires
        0 <= k <= FLOW_TYPE_COUNT,
        counts.len() == FLOW_TYPE_COUNT,
    ensures
        ({
            let rows = rows_upto(counts, k, include_transparent);
            &&& forall|i: int| 0 <= i < rows.len() ==> flow_rank(#[trigger] rows[i].0) < k
            &&& forall|i: int, j: int|
                0 <= i < j < rows.len() ==> flow_rank(#[trigger] rows[i].0) < flow_rank(#[trigger] rows[j].0)
            &&& forall|i: int|
                0 <= i < rows.len() ==> {
                    &&& (#[trigger] rows[i]).1 == counts[flow_rank(rows[i].0) as int]
                    &&& rows[i].1 > 0
                    &&& (include_transparent || rows[i].0 != FlowType::Transparent)
                }
            &&& forall|f: FlowType|
                flow_rank(f) < k && counts[flow_rank(f) as int] > 0 && (include_transparent || f
                    != FlowType::Transparent) ==> exists|i: int| 0 <= i < rows.len() && (#[trigger] rows[i]).0 == f
        }),
    decreases k,
{
    if k > 0 {
        lemma_rows_upto(counts, k - 1, include_transparent);
        let prev = rows_upto(counts, k - 1, include_transparent);
        let rows = rows_upto(counts, k, include_transparent);
        let g = flow_at_rank(k - 1);
        lemma_rank_roundtrip(g, k - 1);
        assert forall|f: FlowType|
            flow_rank(f) < k && counts[flow_rank(f) as int] > 0 && (include_transparent || f
                != FlowType::Transparent) implies exists|i: int| 0 <= i < rows.len() && (#[trigger] rows[i]).0 == f by {
            lemma_rank_roundtrip(f, k - 1);
            if flow_rank(f) < k - 1 {
                let i = choose|i: int| 0 <= i < prev.len() && (#[trigger] prev[i]).0 == f;
                assert(rows[i] == prev[i]);
            } else {
                assert(f == g);
                assert(rows[prev.len() as int].0 == f);
            }
        }
    }
}

/// The rows of a history list exactly the flow types with a positive count
/// (the Transparent one only when asked for), each with its count, in
/// ascending label order: the order in which a map keyed by label lists them.
pub proof fn lemma_rows_in_label_order(counts: Seq<nat>, include_transparent: bool)
    requires
        counts.len() == FLOW_TYPE_COUNT,
    ensures
        ({
            let rows = rows_of(counts, include_transparent);
            &&& forall|i: int, j: int|
                0 <= i < j < rows.len() ==> lex_lt(flow_label(#[trigger] rows[i].0), flow_label(#[trigger] rows[j].0))
            &&& forall|i: int|
                0 <= i < rows.len() ==> (#[trigger] rows[i]).1 == counts[flow_rank(rows[i].0) as int]
                    && rows[i].1 > 0 && (include_transparent || rows[i].0 != FlowType::Transparent)
            &&& forall|f: FlowType|
                counts[flow_rank(f) as int] > 0 && (include_transparent || f != FlowType::Transparent)
                    ==> exists|i: int| 0 <= i < rows.len() && (#[trigger] rows[i]).0 == f
        }),
{
    let rows = rows_of(counts, include_transparent);
    lemma_rows_upto(counts, FLOW_TYPE_COUNT as int, include_transparent);
    assert forall|i: int, j: int|
        0 <= i < j < rows.len() implies lex_lt(flow_label(#[trigger] rows[i].0), flow_label(#[trigger] rows[j].0)) by {
        lemma_rank_order_is_label_order(rows[i].0, rows[j].0);
    }
    assert forall|f: FlowType|
        counts[flow_rank(f) as int] > 0 && (include_transparent || f != FlowType::Transparent)
            implies exists|i: int| 0 <= i < rows.len() && (#[trigger] rows[i]).0 == f by {
        assert(flow_rank(f) < FLOW_TYPE_COUNT);
    }
}

/// Sum of the counts of the first `k` ranks whose label begins with `prefix`.
pub open spec fn label_prefix_total(counts: Seq<nat>, prefix: Seq<char>, k: int) -> nat
    decreases k,
{
    if k <= 0 {
        0
    } else {
        label_prefix_total(counts, prefix, k - 1) + if starts_with(flow_label(flow_at_rank(k - 1)), prefix) {
            counts[k - 1]
        } else {
            0
        }
    }
}

/// Each group total is the sum of the counts of exactly the flow types whose
/// label begins with the group's word: `Deshielding`, `Shielding`, `Private`.
pub proof fn lemma_group_totals_by_label(counts: Seq<nat>)
    requires
        counts.len() == FLOW_TYPE_COUNT,
    ensures
        deshielding_total(counts) == label_prefix_total(counts, "Deshielding"@, FLOW_TYPE_COUNT as int),
        shielding_total(counts) == label_prefix_total(counts, "Shielding"@, FLOW_TYPE_COUNT as int),
        private_total(counts) == label_prefix_total(counts, "Private"@, FLOW_TYPE_COUNT as int),
{
    assert forall|r: int| 0 <= r < FLOW_TYPE_COUNT implies {
        &&& starts_with(flow_label(#[trigger] flow_at_rank(r)), "Deshielding"@) == (1 <= r <= 5)
        &&& starts_with(flow_label(flow_at_rank(r)), "Shielding"@) == (9 <= r <= 11)
        &&& starts_with(flow_label(flow_at_rank(r)), "Private"@) == (6 <= r <= 8)
    } by {
        lemma_groups_by_label_prefix(flow_at_rank(r));
        lemma_rank_roundtrip(flow_at_rank(r), r);
    }
    assert(flow_at_rank(0) == FlowType::ComplexMixed);
    reveal_with_fuel(label_prefix_total, 15);
}

proof fn lemma_flow_counts_len(flows: Seq<FlowType>)
    ensures
        flow_counts(flows).len() == FLOW_TYPE_COUNT,
    decreases flows.len(),
{
    if flows.len() > 0 {
        lemma_flow_counts_len(flows.drop_last());
    }
}

proof fn lemma_rank_injective(f: FlowType, g: FlowType)
    ensures
        (flow_rank(f) == flow_rank(g)) == (f == g),
{
    lemma_rank_roundtrip(f, 0);
    lemma_rank_roundtrip(g, 0);
}

/// The count of a flow type in a batch is the number of transactions of the
/// batch that have that flow type.
pub proof fn lemma_flow_counts_count(flows: Seq<FlowType>, f: FlowType)
    ensures
        flow_counts(flows)[flow_rank(f) as int] == flows.filter(|g: FlowType| g == f).len(),
    decreases flows.len(),
{
    reveal_with_fuel(Seq::<FlowType>::filter, 1);
    if flows.len() > 0 {
        lemma_flow_counts_count(flows.drop_last(), f);
        lemma_flow_counts_len(flows.drop_last());
        lemma_rank_injective(f, flows.last());
        assert(flow_rank(f) < FLOW_TYPE_COUNT);
    }
}

/// Recording a txid already seen changes nothing; recording a new one adds
/// it to the seen txids, raises the total by one, raises the count of its own
/// flow type by one, and leaves the count of every other flow type as it was.
pub proof fn lemma_record_one_counts(h: HistoryView, txid: Seq<char>, f: FlowType, g: FlowType)
    requires
        h.counts.len() == FLOW_TYPE_COUNT,
    ensures
        h.seen.contains(txid) ==> record_one(h, txid, f) == h,
        !h.seen.contains(txid) ==> {
            &&& record_one(h, txid, f).seen == h.seen.push(txid)
            &&& record_one(h, txid, f).total == h.total + 1
            &&& record_one(h, txid, f).counts.len() == h.counts.len()
            &&& record_one(h, txid, f).counts[flow_rank(g) as int] == h.counts[flow_rank(g) as int] + (
            if g == f {
                1nat
            } else {
                0nat
            })
        },
{
    lemma_rank_injective(f, g);
    assert(flow_rank(f) < FLOW_TYPE_COUNT);
    assert(flow_rank(g) < FLOW_TYPE_COUNT);
}

/// Running statistics of the monitor: every distinct transaction seen since
/// start-up, counted by flow type.
pub struct History {
    seen: Vec<String>,
    counts: Vec<u32>,
    total: u32,
}

impl View for History {
    type V = HistoryView;

    closed spec fn view(&self) -> HistoryView {
        HistoryView {
            seen: self.seen@.map_values(|s: String| s@),
            counts: self.counts@.map_values(|c: u32| c as nat),
            total: self.total as nat,
        }
    }
}

impl History {
    pub closed spec fn wf(&self) -> bool {
        &&& self.counts@.len() == FLOW_TYPE_COUNT
        &&& history_wf(self@)
    }

    /// A history that its methods have kept is consistent: every txid
    /// counted once, and the counts add up to the total.
    pub proof fn lemma_consistent(&self)
        requires
            self.wf(),
        ensures
            history_wf(self@),
    {
    }

    pub fn new() -> (h: History)
        ensures
            h.wf(),
            h@ == empty_history(),
            h@.seen.len() == 0,
            h@.total == 0,
            forall|f: FlowType| h@.counts[flow_rank(f) as int] == 0,
    {
        let mut counts: Vec<u32> = Vec::new();
        let mut i: usize = 0;
        while i < FLOW_TYPE_COUNT
            invariant
                i <= FLOW_TYPE_COUNT,
                counts@.len() == i,
                forall|j: int| 0 <= j < i ==> counts@[j] == 0,
            decreases FLOW_TYPE_COUNT - i,
        {
            counts.push(0);
            i = i + 1;
        }
        let h = History { seen: Vec::new(), counts, total: 0 };
        assert(h@.counts =~= empty_history().counts);
        assert(h@.seen =~= empty_history().seen);
        proof {
            lemma_zero_sum(FLOW_TYPE_COUNT as nat);
        }
        h
    }

    /// Number of distinct transactions counted.
    pub fn total(&self) -> (n: u32)
        ensures
            n == self@.total,
    {
        self.total
    }

    /// Number of counted transactions of flow type `f`.
    pub fn count(&self, f: FlowType) -> (n: u32)
        requires
            self.wf(),
        ensures
            n == self@.counts[flow_rank(f) as int],
    {
        let r = f.rank();
        self.counts[r]
    }

    fn is_seen(&self, txid: &String) -> (b: bool)
        ensures
            b == self@.seen.contains(txid@),
    {
        let mut j: usize = 0;
        while j < self.seen.len()
            invariant
                j <= self.seen@.len(),
                forall|k: int| 0 <= k < j ==> self.seen@[k]@ != txid@,
            decreases self.seen@.len() - j,
        {
            if self.seen[j] == *txid {
                assert(self@.seen[j as int] == txid@);
                return true;
            }
            j = j + 1;
        }
        assert forall|k: int| 0 <= k < self@.seen.len() implies self@.seen[k] != txid@ by {
            assert(self@.seen[k] == self.seen@[k]@);
        }
        false
    }

    fn record_class(&mut self, class: &TxClass)
        requires
            old(self).wf(),
            record_one(old(self)@, class.txid@, class.flow).total <= u32::MAX,
        ensures
            final(self).wf(),
            final(self)@ == record_one(old(self)@, class.txid@, class.flow),
    {
        if self.is_seen(&class.txid) {
            return;
        }
        let ghost before = self@;
        let r = class.flow.rank();
        proof {
            lemma_elem_le_sum(before.counts, r as int);
            lemma_record_one_wf(before, class.txid@, class.flow);
        }
        let c = self.counts[r];
        self.seen.push(class.txid.clone());
        self.counts.set(r, c + 1);
        self.total = self.total + 1;
        assert(self@.seen =~= before.seen.push(class.txid@));
        assert(self@.counts =~= before.counts.update(r as int, before.counts[r as int] + 1));
    }

    /// Counts each transaction of `classes` whose txid was not counted
    /// before, under its flow type.
    pub fn record(&mut self, classes: &Vec<TxClass>)
        requires
            old(self).wf(),
            record_all(old(self)@, class_keys(classes@)).total <= u32::MAX,
        ensures
            final(self).wf(),
            final(self)@ == record_all(old(self)@, class_keys(classes@)),
    {
        let ghost start = self@;
        let ghost keys = class_keys(classes@);
        let mut i: usize = 0;
        assert(keys.take(0) =~= Seq::<(Seq<char>, FlowType)>::empty());
        while i < classes.len()
            invariant
                i <= classes@.len(),
                keys == class_keys(classes@),
                keys.len() == classes@.len(),
                self.wf(),
                self@ == record_all(start, keys.take(i as int)),
                record_all(start, keys).total <= u32::MAX,
            decreases classes@.len() - i,
        {
            assert(keys.take(i + 1).drop_last() =~= keys.take(i as int));
            assert(keys.take(i + 1).last() == class_key(classes@[i as int]));
            proof {
                lemma_total_prefix(start, keys, i + 1);
            }
            self.record_class(&classes[i]);
            i = i + 1;
        }
        assert(keys.take(keys.len() as int) =~= keys);
    }

    /// Whether `record(classes)` keeps the total within `u32`.
    pub fn can_record(&self, classes: &Vec<TxClass>) -> (ok: bool)
        requires
            self.wf(),
        ensures
            ok == (record_all(self@, class_keys(classes@)).total <= u32::MAX),
    {
        let ghost keys = class_keys(classes@);
        let mut fresh: Vec<String> = Vec::new();
        let mut i: usize = 0;
        assert(keys.take(0) =~= Seq::<(Seq<char>, FlowType)>::empty());
        assert(self@.seen + Seq::<Seq<char>>::empty() =~= self@.seen);
        while i < classes.len()
            invariant
                i <= classes@.len(),
                keys == class_keys(classes@),
                keys.len() == classes@.len(),
                self.wf(),
                record_all(self@, keys.take(i as int)).seen == self@.seen + fresh@.map_values(|s: String| s@),
                record_all(self@, keys.take(i as int)).total == self@.total + fresh@.len(),
                self@.total + fresh@.len() <= u32::MAX,
            decreases classes@.len() - i,
        {
            let ghost prev = record_all(self@, keys.take(i as int));
            assert(keys.take(i + 1).drop_last() =~= keys.take(i as int));
            assert(keys.take(i + 1).last() == class_key(classes@[i as int]));
            let txid = &classes[i].txid;
            let mut known = self.is_seen(txid);
            let mut j: usize = 0;
            while j < fresh.len() && !known
                invariant
                    j <= fresh@.len(),
                    known == (self@.seen.contains(txid@) || exists|k: int| 0 <= k < j && fresh@[k]@ == txid@),
                decreases fresh@.len() - j,
            {
                if fresh[j] == *txid {
                    known = true;
                }
                j = j + 1;
            }
            let ghost fresh_ids = fresh@.map_values(|s: String| s@);
            assert(known == prev.seen.contains(txid@)) by {
                if known {
                    if self@.seen.contains(txid@) {
                        let k = choose|k: int| 0 <= k < self@.seen.len() && self@.seen[k] == txid@;
                        assert(prev.seen[k] == txid@);
                    } else {
                        let k = choose|k: int| 0 <= k < j && fresh@[k]@ == txid@;
                        assert(prev.seen[self@.seen.len() + k] == txid@);
                    }
                } else {
                    assert forall|k: int| 0 <= k < prev.seen.len() implies prev.seen[k] != txid@ by {
                        if k < self@.seen.len() {
                            assert(prev.seen[k] == self@.seen[k]);
                        } else {
                            assert(prev.seen[k] == fresh@[k - self@.seen.len()]@);
                        }
                    }
                }
            }
            if !known {
                if self.total as usize + fresh.len() >= u32::MAX as usize {
                    proof {
                        lemma_total_prefix(self@, keys, i + 1);
                    }
                    return false;
                }
                fresh.push(txid.clone());
                assert(fresh@.map_values(|s: String| s@) =~= fresh_ids.push(txid@));
            }
            i = i + 1;
        }
        assert(keys.take(keys.len() as int) =~= keys);
        true
    }

    /// The `(flow type, count)` rows with a positive count, in label order;
    /// the Transparent row only if `include_transparent`.
    pub fn rows(&self, include_transparent: bool) -> (rows: Vec<(FlowType, u32)>)
        requires
            self.wf(),
        ensures
            rows@.map_values(|r: (FlowType, u32)| (r.0, r.1 as nat)) == rows_of(
                self@.counts,
                include_transparent,
            ),
    {
        rows_of_counts(&self.counts, include_transparent)
    }

    /// Totals of the deshielding, shielding and private flow types.
    pub fn group_totals(&self) -> (g: GroupTotals)
        requires
            self.wf(),
        ensures
            g.deshielding == deshielding_total(self@.counts),
            g.shielding == shielding_total(self@.counts),
            g.private == private_total(self@.counts),
            g.deshielding == label_prefix_total(self@.counts, "Deshielding"@, FLOW_TYPE_COUNT as int),
            g.shielding == label_prefix_total(self@.counts, "Shielding"@, FLOW_TYPE_COUNT as int),
            g.private == label_prefix_total(self@.counts, "Private"@, FLOW_TYPE_COUNT as int),
    {
        proof {
            lemma_sum_of_fourteen(self@.counts);
            lemma_group_totals_by_label(self@.counts);
        }
        let c = &self.counts;
        GroupTotals {
            deshielding: c[1] + c[2] + c[3] + c[4] + c[5],
            shielding: c[9] + c[10] + c[11],
            private: c[6] + c[7] + c[8],
        }
    }
}

/// The rows of positive counts, in rank order.
fn rows_of_counts(counts: &Vec<u32>, include_transparent: bool) -> (rows: Vec<(FlowType, u32)>)
    requires
        counts@.len() == FLOW_TYPE_COUNT,
    ensures
        rows@.map_values(|r: (FlowType, u32)| (r.0, r.1 as nat)) == rows_of(
            counts@.map_values(|c: u32| c as nat),
            include_transparent,
        ),
{
    let ghost nats = counts@.map_values(|c: u32| c as nat);
    let mut rows: Vec<(FlowType, u32)> = Vec::new();
    let mut k: usize = 0;
    while k < FLOW_TYPE_COUNT
        invariant
            k <= FLOW_TYPE_COUNT,
            counts@.len() == FLOW_TYPE_COUNT,
            nats == counts@.map_values(|c: u32| c as nat),
            rows@.map_values(|r: (FlowType, u32)| (r.0, r.1 as nat)) == rows_upto(nats, k as int, include_transparent),
        decreases FLOW_TYPE_COUNT - k,
    {
        let ghost prev = rows@;
        let f = FlowType::at_rank(k);
        let c = counts[k];
        if c > 0 && (include_transparent || f != FlowType::Transparent) {
            rows.push((f, c));
            assert(rows@.map_values(|r: (FlowType, u32)| (r.0, r.1 as nat)) =~= prev.map_values(
                |r: (FlowType, u32)| (r.0, r.1 as nat),
            ).push((f, c as nat)));
        }
        k = k + 1;
    }
    rows
}

/// Every flow type's count in a batch fits in a `u32`.
pub open spec fn batch_counts_fit(classes: Seq<TxClass>) -> bool {
    let counts = flow_counts(classes.map_values(|c: TxClass| c.flow));
    forall|r: int| 0 <= r < FLOW_TYPE_COUNT ==> #[trigger] counts[r] <= u32::MAX
}

/// Counts the flow types of a batch, indexed by rank.
fn count_flows(classes: &Vec<TxClass>) -> (counts: Vec<u64>)
    ensures
        counts@.len() == FLOW_TYPE_COUNT,
        counts@.map_values(|c: u64| c as nat) == flow_counts(classes@.map_values(|c: TxClass| c.flow)),
{
    let ghost flows = classes@.map_values(|c: TxClass| c.flow);
    let mut counts: Vec<u64> = Vec::new();
    let mut r: usize = 0;
    while r < FLOW_TYPE_COUNT
        invariant
            r <= FLOW_TYPE_COUNT,
            counts@.len() == r,
            forall|j: int| 0 <= j < r ==> counts@[j] == 0,
        decreases FLOW_TYPE_COUNT - r,
    {
        counts.push(0);
        r = r + 1;
    }
    assert(counts@.map_values(|c: u64| c as nat) =~= flow_counts(flows.take(0)));
    let mut i: usize = 0;
    while i < classes.len()
        invariant
            i <= classes@.len(),
            flows == classes@.map_values(|c: TxClass| c.flow),
            counts@.len() == FLOW_TYPE_COUNT,
            counts@.map_values(|c: u64| c as nat) == flow_counts(flows.take(i as int)),
            forall|j: int| 0 <= j < FLOW_TYPE_COUNT ==> counts@[j] <= i,
        decreases classes@.len() - i,
    {
        assert(flows.take(i + 1).drop_last() =~= flows.take(i as int));
        assert(flows.take(i + 1).last() == classes@[i as int].flow);
        let rk = classes[i].flow.rank();
        let c = counts[rk];
        counts.set(rk, c + 1);
        assert(counts@.map_values(|c: u64| c as nat) =~= flow_counts(flows.take(i + 1)));
        i = i + 1;
    }
    assert(flows.take(classes@.len() as int) =~= flows);
    counts
}

/// Whether every flow type's count in `classes` fits in a `u32`, as
/// `batch_rows` needs.
pub fn batch_rows_fit(classes: &Vec<TxClass>) -> (ok: bool)
    ensures
        ok == batch_counts_fit(classes@),
{
    let counts = count_flows(classes);
    let ghost nats = counts@.map_values(|c: u64| c as nat);
    let mut r: usize = 0;
    while r < FLOW_TYPE_COUNT
        invariant
            r <= FLOW_TYPE_COUNT,
            counts@.len() == FLOW_TYPE_COUNT,
            nats == counts@.map_values(|c: u64| c as nat),
            nats == flow_counts(classes@.map_values(|c: TxClass| c.flow)),
            forall|j: int| 0 <= j < r ==> #[trigger] nats[j] <= u32::MAX,
        decreases FLOW_TYPE_COUNT - r,
    {
        if counts[r] > u32::MAX as u64 {
            assert(nats[r as int] > u32::MAX);
            return false;
        }
        r = r + 1;
    }
    true
}

/// The `(flow type, count)` rows of one batch of classified transactions,
/// with a positive count, in label order.
pub fn batch_rows(classes: &Vec<TxClass>) -> (rows: Vec<(FlowType, u32)>)
    requires
        batch_counts_fit(classes@),
    ensures
        rows@.map_values(|r: (FlowType, u32)| (r.0, r.1 as nat)) == rows_of(
            flow_counts(classes@.map_values(|c: TxClass| c.flow)),
            true,
        ),
{
    let wide = count_flows(classes);
    let ghost nats = wide@.map_values(|c: u64| c as nat);
    let mut counts: Vec<u32> = Vec::new();
    let mut r: usize = 0;
    while r < FLOW_TYPE_COUNT
        invariant
            r <= FLOW_TYPE_COUNT,
            wide@.len() == FLOW_TYPE_COUNT,
            nats == wide@.map_values(|c: u64| c as nat),
            nats == flow_counts(classes@.map_values(|c: TxClass| c.flow)),
            batch_counts_fit(classes@),
            counts@.len() == r,
            forall|j: int| 0 <= j < r ==> counts@[j] == wide@[j],
        decreases FLOW_TYPE_COUNT - r,
    {
        assert(nats[r as int] <= u32::MAX);
        counts.push(wide[r] as u32);
        r = r + 1;
    }
    assert(counts@.map_values(|c: u32| c as nat) =~= nats);
    rows_of_counts(&counts, true)
}

/// The state the monitor keeps between refreshes.
pub struct Monitor {
    /// Chain height when the monitor started (0 if it could not be fetched).
    pub initial_blocks: u64,
    pub history: History,
}

pub open spec fn blocks_mined_spec(initial: u64, current: Option<u64>) -> u64 {
    match current {
        Some(c) => if c >= initial { (c - initial) as u64 } else { 0 },
        None => 0,
    }
}

impl Monitor {
    /// Starts monitoring with the height fetched at start-up, if any.
    pub fn start(initial_height: Option<u64>) -> (m: Monitor)
        ensures
            m.initial_blocks == (match initial_height { Some(h) => h, None => 0 }),
            m.history.wf(),
            m.history@ == empty_history(),
    {
        let initial_blocks = match initial_height {
            Some(h) => h,
            None => 0,
        };
        Monitor { initial_blocks, history: History::new() }
    }

    /// Blocks mined since start-up, given the height fetched now; a failed
    /// fetch counts as no progress.
    pub fn blocks_mined(&self, current_height: Option<u64>) -> (n: u64)
        ensures
            n == blocks_mined_spec(self.initial_blocks, current_height),
            current_height matches Some(c) ==> (c >= self.initial_blocks ==> n + self.initial_blocks == c),
            current_height matches Some(c) ==> (c < self.initial_blocks ==> n == 0),
            current_height is None ==> n == 0,
    {
        let current = match current_height {
            Some(h) => h,
            None => self.initial_blocks,
        };
        current.saturating_sub(self.initial_blocks)
    }
}

} // verus!
