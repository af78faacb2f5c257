//! Counter table: one (live bytes, live count) pair per bucket, indexed by
//! thread id modulo the table size. Updated on every allocation and
//! deallocation; distinct threads may alias to one bucket, which costs only
//! per-bucket precision, never the exactness of the totals.
//!
//! Updates wrap like the machine's atomic fetch-add/fetch-sub, so the
//! operations never panic and balanced histories cancel exactly.

use vstd::arithmetic::div_mod::{
    lemma_add_mod_noop, lemma_mod_add_multiples_vanish, lemma_small_mod, lemma_sub_mod_noop,
};
use vstd::prelude::*;

verus! {

/// Number of buckets in the counter table.
pub const COUNTERS_SIZE: usize = 16384;

/// Wrapping addition on the bucket word, as the machine's atomic fetch-add
/// behaves.
pub open spec fn wadd(a: usize, b: usize) -> usize {
    vstd::wrapping::usize_specs::wrapping_add(a, b)
}

/// Wrapping subtraction on the bucket word, as the machine's atomic
/// fetch-sub behaves.
pub open spec fn wsub(a: usize, b: usize) -> usize {
    vstd::wrapping::usize_specs::wrapping_sub(a, b)
}

/// One more than the largest bucket word: the modulus of the wrapping
/// arithmetic.
pub open spec fn word_range() -> int {
    usize::MAX + 1
}

/// Wrapping addition is addition modulo the word range.
proof fn lemma_wadd_is_mod(a: usize, b: usize)
    ensures
        wadd(a, b) == (a + b) % word_range(),
{
    let m = word_range();
    if a + b > usize::MAX {
        lemma_mod_add_multiples_vanish(a + b - m, m);
        lemma_small_mod((a + b - m) as nat, m as nat);
    } else {
        lemma_small_mod((a + b) as nat, m as nat);
    }
}

/// Wrapping subtraction is subtraction modulo the word range.
proof fn lemma_wsub_is_mod(a: usize, b: usize)
    ensures
        wsub(a, b) == (a - b) % word_range(),
{
    let m = word_range();
    if a - b < 0 {
        lemma_mod_add_multiples_vanish(a - b, m);
        lemma_small_mod((a - b + m) as nat, m as nat);
    } else {
        lemma_small_mod((a - b) as nat, m as nat);
    }
}

/// The bucket that a thread's updates land in.
pub open spec fn bucket_of(tid: usize) -> int {
    tid as int % (COUNTERS_SIZE as int)
}

/// One step of the counter table's history: an allocation or a
/// deallocation of `size` bytes by thread `tid`.
pub enum CounterEvent {
    Alloc { tid: usize, size: usize },
    Dealloc { tid: usize, size: usize },
}

/// The mathematical state of the counter table: live bytes and live counts
/// per bucket.
#[verifier::ext_equal]
pub ghost struct CounterModel {
    pub bytes: Seq<usize>,
    pub counts: Seq<usize>,
}

impl CounterModel {
    /// Both columns have one word per bucket.
    pub open spec fn wf(self) -> bool {
        &&& self.bytes.len() == COUNTERS_SIZE
        &&& self.counts.len() == COUNTERS_SIZE
    }

    /// The all-zero table every process starts from.
    pub open spec fn zero() -> CounterModel {
        CounterModel {
            bytes: Seq::new(COUNTERS_SIZE as nat, |i: int| 0usize),
            counts: Seq::new(COUNTERS_SIZE as nat, |i: int| 0usize),
        }
    }
}

/// What one alloc or dealloc does to the table: a wrapping update of the
/// owning thread's bucket, all other buckets untouched.
pub open spec fn apply_event(m: CounterModel, e: CounterEvent) -> CounterModel {
    match e {
        CounterEvent::Alloc { tid, size } => {
            let b = bucket_of(tid);
            CounterModel {
                bytes: m.bytes.update(b, wadd(m.bytes[b], size)),
                counts: m.counts.update(b, wadd(m.counts[b], 1)),
            }
        },
        CounterEvent::Dealloc { tid, size } => {
            let b = bucket_of(tid);
            CounterModel {
                bytes: m.bytes.update(b, wsub(m.bytes[b], size)),
                counts: m.counts.update(b, wsub(m.counts[b], 1)),
            }
        },
    }
}

/// The table after a whole history of events, applied in order.
pub open spec fn apply_events(m: CounterModel, es: Seq<CounterEvent>) -> CounterModel
    decreases es.len(),
{
    if es.len() == 0 {
        m
    } else {
        apply_event(apply_events(m, es.drop_last()), es.last())
    }
}

/// Total bytes the history allocates into bucket `b`.
pub open spec fn alloc_bytes_into(es: Seq<CounterEvent>, b: int) -> int
    decreases es.len(),
{
    if es.len() == 0 {
        0
    } else {
        alloc_bytes_into(es.drop_last(), b) + (match es.last() {
            CounterEvent::Alloc { tid, size } => if bucket_of(tid) == b {
                size as int
            } else {
                0
            },
            CounterEvent::Dealloc { .. } => 0,
        })
    }
}

/// Total bytes the history releases from bucket `b`.
pub open spec fn freed_bytes_from(es: Seq<CounterEvent>, b: int) -> int
    decreases es.len(),
{
    if es.len() == 0 {
        0
    } else {
        freed_bytes_from(es.drop_last(), b) + (match es.last() {
            CounterEvent::Dealloc { tid, size } => if bucket_of(tid) == b {
                size as int
            } else {
                0
            },
            CounterEvent::Alloc { .. } => 0,
        })
    }
}

/// Number of allocations the history records into bucket `b`.
pub open spec fn allocs_into(es: Seq<CounterEvent>, b: int) -> int
    decreases es.len(),
{
    if es.len() == 0 {
        0
    } else {
        allocs_into(es.drop_last(), b) + (match es.last() {
            CounterEvent::Alloc { tid, .. } => if bucket_of(tid) == b {
                1int
            } else {
                0
            },
            CounterEvent::Dealloc { .. } => 0,
        })
    }
}

/// Number of deallocations the history records from bucket `b`.
pub open spec fn frees_from(es: Seq<CounterEvent>, b: int) -> int
    decreases es.len(),
{
    if es.len() == 0 {
        0
    } else {
        frees_from(es.drop_last(), b) + (match es.last() {
            CounterEvent::Dealloc { tid, .. } => if bucket_of(tid) == b {
                1int
            } else {
                0
            },
            CounterEvent::Alloc { .. } => 0,
        })
    }
}

/// After any history, a bucket holds its initial word plus everything
/// allocated into it minus everything freed from it, modulo the word range.
/// The order in which the events interleave does not matter.
pub proof fn lemma_apply_events_bucket(m: CounterModel, es: Seq<CounterEvent>, b: int)
    requires
        m.wf(),
        0 <= b < COUNTERS_SIZE,
    ensures
        apply_events(m, es).wf(),
        apply_events(m, es).bytes[b] == (m.bytes[b] + alloc_bytes_into(es, b) - freed_bytes_from(
            es,
            b,
        )) % word_range(),
        apply_events(m, es).counts[b] == (m.counts[b] + allocs_into(es, b) - frees_from(es, b))
            % word_range(),
    decreases es.len(),
{
    let r = word_range();
    if es.len() == 0 {
        lemma_small_mod(m.bytes[b] as nat, r as nat);
        lemma_small_mod(m.counts[b] as nat, r as nat);
    } else {
        let prefix = es.drop_last();
        lemma_apply_events_bucket(m, prefix, b);
        let prev = apply_events(m, prefix);
        let xb = m.bytes[b] + alloc_bytes_into(prefix, b) - freed_bytes_from(prefix, b);
        let xc = m.counts[b] + allocs_into(prefix, b) - frees_from(prefix, b);
        match es.last() {
            CounterEvent::Alloc { tid, size } => {
                if bucket_of(tid) == b {
                    lemma_wadd_is_mod(prev.bytes[b], size);
                    lemma_add_mod_noop(xb, size as int, r);
                    lemma_small_mod(size as nat, r as nat);
                    lemma_wadd_is_mod(prev.counts[b], 1);
                    lemma_add_mod_noop(xc, 1, r);
                    lemma_small_mod(1, r as nat);
                }
            },
            CounterEvent::Dealloc { tid, size } => {
                if bucket_of(tid) == b {
                    lemma_wsub_is_mod(prev.bytes[b], size);
                    lemma_sub_mod_noop(xb, size as int, r);
                    lemma_small_mod(size as nat, r as nat);
                    lemma_wsub_is_mod(prev.counts[b], 1);
                    lemma_sub_mod_noop(xc, 1, r);
                    lemma_small_mod(1, r as nat);
                }
            },
        }
    }
}

/// An allocation immediately undone by its deallocation leaves the table
/// exactly as it was: the pair is net-zero, wrap or no wrap.
pub proof fn lemma_alloc_dealloc_net_zero(m: CounterModel, tid: usize, size: usize)
    requires
        m.wf(),
    ensures
        apply_event(
            apply_event(m, CounterEvent::Alloc { tid, size }),
            CounterEvent::Dealloc { tid, size },
        ) =~= m,
{
    let b = bucket_of(tid);
    assert(wsub(wadd(m.bytes[b], size), size) == m.bytes[b]);
    assert(wsub(wadd(m.counts[b], 1), 1) == m.counts[b]);
}

/// Any finite, arbitrarily interleaved history with no outstanding
/// allocations at the end — everything allocated into each bucket was also
/// freed from it, in bytes and in count — leaves a table that started at
/// zero at zero again, in every bucket.
pub proof fn lemma_balanced_history_drains_to_zero(es: Seq<CounterEvent>)
    requires
        forall|b: int|
            0 <= b < COUNTERS_SIZE ==> #[trigger] alloc_bytes_into(es, b) == freed_bytes_from(
                es,
                b,
            ),
        forall|b: int|
            0 <= b < COUNTERS_SIZE ==> #[trigger] allocs_into(es, b) == frees_from(es, b),
    ensures
        apply_events(CounterModel::zero(), es).wf(),
        forall|b: int|
            0 <= b < COUNTERS_SIZE ==> #[trigger] apply_events(CounterModel::zero(), es).bytes[b]
                == 0,
        forall|b: int|
            0 <= b < COUNTERS_SIZE ==> #[trigger] apply_events(CounterModel::zero(), es).counts[b]
                == 0,
{
    let z = CounterModel::zero();
    lemma_apply_events_bucket(z, es, 0);
    assert forall|b: int| 0 <= b < COUNTERS_SIZE implies #[trigger] apply_events(
        z,
        es,
    ).bytes[b] == 0 by {
        lemma_apply_events_bucket(z, es, b);
        lemma_small_mod(0, word_range() as nat);
    }
    assert forall|b: int| 0 <= b < COUNTERS_SIZE implies #[trigger] apply_events(
        z,
        es,
    ).counts[b] == 0 by {
        lemma_apply_events_bucket(z, es, b);
        lemma_small_mod(0, word_range() as nat);
    }
}

/// The (thread, size) pairs of the history's allocations, in order.
pub open spec fn alloc_pairs(es: Seq<CounterEvent>) -> Seq<(usize, usize)>
    decreases es.len(),
{
    if es.len() == 0 {
        Seq::empty()
    } else {
        let rest = alloc_pairs(es.drop_last());
        match es.last() {
            CounterEvent::Alloc { tid, size } => rest.push((tid, size)),
            CounterEvent::Dealloc { .. } => rest,
        }
    }
}

/// The (thread, size) pairs of the history's deallocations, in order.
pub open spec fn dealloc_pairs(es: Seq<CounterEvent>) -> Seq<(usize, usize)>
    decreases es.len(),
{
    if es.len() == 0 {
        Seq::empty()
    } else {
        let rest = dealloc_pairs(es.drop_last());
        match es.last() {
            CounterEvent::Dealloc { tid, size } => rest.push((tid, size)),
            CounterEvent::Alloc { .. } => rest,
        }
    }
}

/// What one (thread, size) pair contributes to bucket `b`, in bytes.
pub open spec fn pair_bytes_of(p: (usize, usize), b: int) -> int {
    if bucket_of(p.0) == b {
        p.1 as int
    } else {
        0
    }
}

/// What one (thread, size) pair contributes to bucket `b`, in count.
pub open spec fn pair_count_of(p: (usize, usize), b: int) -> int {
    if bucket_of(p.0) == b {
        1int
    } else {
        0
    }
}

/// Total bytes a sequence of pairs contributes to bucket `b`.
pub open spec fn pair_bytes_into(ps: Seq<(usize, usize)>, b: int) -> int
    decreases ps.len(),
{
    if ps.len() == 0 {
        0
    } else {
        pair_bytes_into(ps.drop_last(), b) + pair_bytes_of(ps.last(), b)
    }
}

/// Total count a sequence of pairs contributes to bucket `b`.
pub open spec fn pair_count_into(ps: Seq<(usize, usize)>, b: int) -> int
    decreases ps.len(),
{
    if ps.len() == 0 {
        0
    } else {
        pair_count_into(ps.drop_last(), b) + pair_count_of(ps.last(), b)
    }
}

/// The per-bucket sums over a history equal the sums over its projected
/// pair sequences.
proof fn lemma_sums_via_pairs(es: Seq<CounterEvent>, b: int)
    ensures
        alloc_bytes_into(es, b) == pair_bytes_into(alloc_pairs(es), b),
        allocs_into(es, b) == pair_count_into(alloc_pairs(es), b),
        freed_bytes_from(es, b) == pair_bytes_into(dealloc_pairs(es), b),
        frees_from(es, b) == pair_count_into(dealloc_pairs(es), b),
    decreases es.len(),
{
    if es.len() > 0 {
        lemma_sums_via_pairs(es.drop_last(), b);
        match es.last() {
            CounterEvent::Alloc { .. } => {
                let ps = alloc_pairs(es);
                assert(ps.drop_last() =~= alloc_pairs(es.drop_last()));
                assert(dealloc_pairs(es) == dealloc_pairs(es.drop_last()));
            },
            CounterEvent::Dealloc { .. } => {
                let ps = dealloc_pairs(es);
                assert(ps.drop_last() =~= dealloc_pairs(es.drop_last()));
                assert(alloc_pairs(es) == alloc_pairs(es.drop_last()));
            },
        }
    }
}

/// Removing one pair takes exactly its contribution out of the sums.
proof fn lemma_pair_sums_remove(ps: Seq<(usize, usize)>, i: int, b: int)
    requires
        0 <= i < ps.len(),
    ensures
        pair_bytes_into(ps, b) == pair_bytes_into(ps.remove(i), b) + pair_bytes_of(ps[i], b),
        pair_count_into(ps, b) == pair_count_into(ps.remove(i), b) + pair_count_of(ps[i], b),
    decreases ps.len(),
{
    if i == ps.len() - 1 {
        assert(ps.remove(i) =~= ps.drop_last());
    } else {
        let q = ps.remove(i);
        assert(q.last() == ps.last());
        assert(q.drop_last() =~= ps.drop_last().remove(i));
        lemma_pair_sums_remove(ps.drop_last(), i, b);
    }
}

/// The per-bucket sums of a pair sequence depend only on which pairs it
/// holds, with multiplicity — not on their order.
proof fn lemma_pair_sums_permutation(ps1: Seq<(usize, usize)>, ps2: Seq<(usize, usize)>, b: int)
    requires
        ps1.to_multiset() == ps2.to_multiset(),
    ensures
        pair_bytes_into(ps1, b) == pair_bytes_into(ps2, b),
        pair_count_into(ps1, b) == pair_count_into(ps2, b),
    decreases ps1.len(),
{
    broadcast use vstd::seq_lib::group_to_multiset_ensures;

    if ps1.len() == 0 {
        assert(ps2.to_multiset().len() == 0);
        assert(ps2.len() == 0);
    } else {
        let x = ps1.last();
        assert(ps1.contains(x));
        assert(ps1.to_multiset().count(x) > 0);
        assert(ps2.to_multiset().count(x) > 0);
        assert(ps2.contains(x));
        let i = choose|i: int| 0 <= i < ps2.len() && ps2[i] == x;
        lemma_pair_sums_remove(ps2, i, b);
        assert(ps1.drop_last() =~= ps1.remove(ps1.len() - 1));
        assert(ps1.drop_last().to_multiset() =~= ps1.to_multiset().remove(x));
        assert(ps2.remove(i).to_multiset() =~= ps2.to_multiset().remove(x));
        lemma_pair_sums_permutation(ps1.drop_last(), ps2.remove(i), b);
    }
}

/// Any finite, arbitrarily interleaved history with no outstanding
/// allocations at the end — the deallocated (thread, size) pairs are
/// exactly the allocated ones, with multiplicity — leaves a table that
/// started at zero at zero again, in every bucket.
pub proof fn lemma_no_outstanding_allocations_drains_to_zero(es: Seq<CounterEvent>)
    requires
        alloc_pairs(es).to_multiset() == dealloc_pairs(es).to_multiset(),
    ensures
        apply_events(CounterModel::zero(), es).wf(),
        forall|b: int|
            0 <= b < COUNTERS_SIZE ==> #[trigger] apply_events(CounterModel::zero(), es).bytes[b]
                == 0,
        forall|b: int|
            0 <= b < COUNTERS_SIZE ==> #[trigger] apply_events(CounterModel::zero(), es).counts[b]
                == 0,
{
    assert forall|b: int| 0 <= b < COUNTERS_SIZE implies #[trigger] alloc_bytes_into(es, b)
        == freed_bytes_from(es, b) by {
        lemma_sums_via_pairs(es, b);
        lemma_pair_sums_permutation(alloc_pairs(es), dealloc_pairs(es), b);
    }
    assert forall|b: int| 0 <= b < COUNTERS_SIZE implies #[trigger] allocs_into(es, b)
        == frees_from(es, b) by {
        lemma_sums_via_pairs(es, b);
        lemma_pair_sums_permutation(alloc_pairs(es), dealloc_pairs(es), b);
    }
    lemma_balanced_history_drains_to_zero(es);
}

/// The live counter table: one bytes word and one count word per bucket.
pub struct CounterTable {
    sizes: Vec<usize>,
    counts: Vec<usize>,
}

impl CounterTable {
    /// The table's mathematical state.
    pub closed spec fn model(self) -> CounterModel {
        CounterModel { bytes: self.sizes@, counts: self.counts@ }
    }

    /// Both columns hold one word per bucket.
    pub open spec fn wf(self) -> bool {
        self.model().wf()
    }

    /// A table with every bucket at zero.
    pub fn new() -> (t: CounterTable)
        ensures
            t.wf(),
            t.model() =~= CounterModel::zero(),
    {
        let mut sizes: Vec<usize> = Vec::new();
        let mut counts: Vec<usize> = Vec::new();
        let mut i: usize = 0;
        while i < COUNTERS_SIZE
            invariant
                i == sizes@.len(),
                i == counts@.len(),
                i <= COUNTERS_SIZE,
                forall|j: int| 0 <= j < i ==> sizes@[j] == 0usize && counts@[j] == 0usize,
            decreases COUNTERS_SIZE - i,
        {
            sizes.push(0);
            counts.push(0);
            i += 1;
        }
        let t = CounterTable { sizes, counts };
        proof {
            assert(t.model().bytes =~= CounterModel::zero().bytes);
            assert(t.model().counts =~= CounterModel::zero().counts);
        }
        t
    }

    /// Records an allocation of `size` bytes by thread `tid`: the owning
    /// bucket's bytes grow by `size` and its count by one, wrapping.
    pub fn on_alloc(&mut self, tid: usize, size: usize)
        requires
            old(self).wf(),
        ensures
            final(self).wf(),
            final(self).model() == apply_event(
                old(self).model(),
                CounterEvent::Alloc { tid, size },
            ),
    {
        let b = tid % COUNTERS_SIZE;
        let cur_bytes = self.sizes[b];
        self.sizes[b] = cur_bytes.wrapping_add(size);
        let cur_count = self.counts[b];
        self.counts[b] = cur_count.wrapping_add(1);
    }

    /// The live-bytes word of one bucket.
    pub fn bytes_at(&self, b: usize) -> (r: usize)
        requires
            self.wf(),
            b < COUNTERS_SIZE,
        ensures
            r == self.model().bytes[b as int],
    {
        self.sizes[b]
    }

    /// The live-count word of one bucket.
    pub fn count_at(&self, b: usize) -> (r: usize)
        requires
            self.wf(),
            b < COUNTERS_SIZE,
        ensures
            r == self.model().counts[b as int],
    {
        self.counts[b]
    }

    /// Records a deallocation of `size` bytes owned by thread `tid`: the
    /// owning bucket's bytes shrink by `size` and its count by one,
    /// wrapping.
    pub fn on_dealloc(&mut self, tid: usize, size: usize)
        requires
            old(self).wf(),
        ensures
            final(self).wf(),
            final(self).model() == apply_event(
                old(self).model(),
                CounterEvent::Dealloc { tid, size },
            ),
    {
        let b = tid % COUNTERS_SIZE;
        let cur_bytes = self.sizes[b];
        self.sizes[b] = cur_bytes.wrapping_sub(size);
        let cur_count = self.counts[b];
        self.counts[b] = cur_count.wrapping_sub(1);
    }
}

} // verus!
