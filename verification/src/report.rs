//! Reporting surface: an unsynchronized aggregation pass over the counter
//! table, producing each non-empty bucket's (count, bytes) and the grand
//! totals across all buckets. Reporting mutates nothing.

use crate::counters::{wadd, CounterTable, COUNTERS_SIZE};
use vstd::prelude::*;

verus! {

/// One non-empty bucket of the counter table, as the report shows it.
#[derive(Clone, Copy, Debug, PartialEq, Eq, Structural)]
pub struct BucketStat {
    /// The bucket's index in the table.
    pub bucket: usize,
    /// The bucket's live allocation count.
    pub count: usize,
    /// The bucket's live bytes.
    pub bytes: usize,
}

/// The aggregated view the external telemetry loop pulls: every bucket with
/// live bytes, plus grand totals over all buckets.
pub struct CounterSnapshot {
    /// The non-empty buckets, in ascending bucket order.
    pub entries: Vec<BucketStat>,
    /// Live allocations summed over all buckets, wrapping.
    pub total_count: usize,
    /// Live bytes summed over all buckets, wrapping.
    pub total_bytes: usize,
}

/// The wrapping sum of the first `n` words of a column.
pub open spec fn wsum(s: Seq<usize>, n: int) -> usize
    decreases n,
{
    if n <= 0 {
        0usize
    } else {
        wadd(wsum(s, n - 1), s[n - 1])
    }
}

/// A column of zeros sums to zero: with the counter laws, a balanced
/// history therefore reports grand totals of zero.
pub proof fn lemma_wsum_all_zero(s: Seq<usize>, n: int)
    requires
        n <= s.len(),
        forall|b: int| 0 <= b < n ==> s[b] == 0usize,
    ensures
        wsum(s, n) == 0usize,
    decreases n,
{
    if n > 0 {
        lemma_wsum_all_zero(s, n - 1);
    }
}

/// After any finite, arbitrarily interleaved history with no outstanding
/// allocations — the deallocated (thread, size) pairs are exactly the
/// allocated ones — a table that started at zero reports grand totals of
/// zero, bytes and count alike.
pub proof fn lemma_balanced_history_reports_zero_totals(es: Seq<crate::counters::CounterEvent>)
    requires
        crate::counters::alloc_pairs(es).to_multiset() == crate::counters::dealloc_pairs(
            es,
        ).to_multiset(),
    ensures
        wsum(
            crate::counters::apply_events(crate::counters::CounterModel::zero(), es).bytes,
            COUNTERS_SIZE as int,
        ) == 0usize,
        wsum(
            crate::counters::apply_events(crate::counters::CounterModel::zero(), es).counts,
            COUNTERS_SIZE as int,
        ) == 0usize,
{
    crate::counters::lemma_no_outstanding_allocations_drains_to_zero(es);
    let m = crate::counters::apply_events(crate::counters::CounterModel::zero(), es);
    lemma_wsum_all_zero(m.bytes, COUNTERS_SIZE as int);
    lemma_wsum_all_zero(m.counts, COUNTERS_SIZE as int);
}

/// Takes the report: walks every bucket once, sums the grand totals, and
/// collects each bucket with live bytes. The pass reads a snapshot without
/// synchronization and changes no state.
pub fn snapshot(t: &CounterTable) -> (snap: CounterSnapshot)
    requires
        t.wf(),
    ensures
        snap.total_bytes == wsum(t.model().bytes, COUNTERS_SIZE as int),
        snap.total_count == wsum(t.model().counts, COUNTERS_SIZE as int),
        forall|k: int|
            0 <= k < snap.entries@.len() ==> {
                let e = #[trigger] snap.entries@[k];
                &&& e.bucket < COUNTERS_SIZE
                &&& e.bytes == t.model().bytes[e.bucket as int]
                &&& e.count == t.model().counts[e.bucket as int]
                &&& e.bytes != 0usize
            },
        forall|k1: int, k2: int|
            0 <= k1 < k2 < snap.entries@.len() ==> snap.entries@[k1].bucket
                < snap.entries@[k2].bucket,
        forall|b: int|
            0 <= b < COUNTERS_SIZE && t.model().bytes[b] != 0usize ==> exists|k: int|
                0 <= k < snap.entries@.len() && (#[trigger] snap.entries@[k]).bucket == b,
{
    let mut entries: Vec<BucketStat> = Vec::new();
    let mut total_bytes: usize = 0;
    let mut total_count: usize = 0;
    let mut b: usize = 0;
    while b < COUNTERS_SIZE
        invariant
            t.wf(),
            b <= COUNTERS_SIZE,
            total_bytes == wsum(t.model().bytes, b as int),
            total_count == wsum(t.model().counts, b as int),
            forall|k: int|
                0 <= k < entries@.len() ==> {
                    let e = #[trigger] entries@[k];
                    &&& e.bucket < b
                    &&& e.bytes == t.model().bytes[e.bucket as int]
                    &&& e.count == t.model().counts[e.bucket as int]
                    &&& e.bytes != 0usize
                },
            forall|k1: int, k2: int|
                0 <= k1 < k2 < entries@.len() ==> entries@[k1].bucket < entries@[k2].bucket,
            forall|bb: int|
                0 <= bb < b && t.model().bytes[bb] != 0usize ==> exists|k: int|
                    0 <= k < entries@.len() && (#[trigger] entries@[k]).bucket == bb,
        decreases COUNTERS_SIZE - b,
    {
        let v = t.bytes_at(b);
        let c = t.count_at(b);
        total_bytes = total_bytes.wrapping_add(v);
        total_count = total_count.wrapping_add(c);
        if v != 0 {
            let ghost old_entries = entries@;
            entries.push(BucketStat { bucket: b, count: c, bytes: v });
            proof {
                assert(entries@[old_entries.len() as int].bucket == b);
                assert forall|bb: int|
                    0 <= bb < b + 1 && t.model().bytes[bb] != 0usize implies exists|k: int|
                    0 <= k < entries@.len() && (#[trigger] entries@[k]).bucket == bb by {
                    if bb < b {
                        let k = choose|k: int|
                            0 <= k < old_entries.len() && (#[trigger] old_entries[k]).bucket == bb;
                        assert(entries@[k].bucket == bb);
                    }
                }
            }
        }
        b += 1;
    }
    CounterSnapshot { entries, total_count, total_bytes }
}

} // verus!
