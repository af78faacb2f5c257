//! The instrumented allocator's process-wide state and its two hot paths.
//! The state is one explicitly constructed context object — counter table,
//! filter bitmaps, identity registry, sanity counter — rather than scattered
//! globals, so initialization order and access rules stay explicit. The
//! backing allocator itself is an external collaborator: it provides and
//! releases the actual memory, and this object records what happened.

use crate::counters::{apply_event, CounterEvent, CounterModel, CounterTable};
use crate::filter::FilterBitmap;
use crate::header::{AllocationHeader, MAGIC_FREED, MAGIC_LIVE};
use crate::ident::{get_tid, ThreadRegistry, ThreadState};
use crate::report::{snapshot, CounterSnapshot};
use crate::sampler::{
    attribute_frames, sample_draw, should_sample, spec_should_capture, spec_walk, trace_begin,
    trace_end, SAMPLE_DRAW_BOUND,
};
use vstd::prelude::*;

verus! {

/// The tracking allocator: the process-wide singleton state that every
/// allocation and deallocation runs through.
pub struct MyAllocator {
    /// Source of thread identities.
    pub registry: ThreadRegistry,
    /// Live bytes and live counts per bucket.
    pub counters: CounterTable,
    /// Slots known uninteresting: never resolved again.
    pub skip_filter: FilterBitmap,
    /// Slots already attributed once: accepted without resolving again.
    pub checked_filter: FilterBitmap,
    /// Incremented on entry to and decremented on exit from every tracker
    /// operation; zero whenever no thread is mid-operation.
    pub sanity: usize,
    /// Whether deep-dump tracking was ever enabled.
    pub enabled: bool,
}

/// What one run of the allocation path hands back to the caller: the
/// header to store in front of the payload, whether the allocation was
/// sampled, and whether the caller should write a deep dump for its
/// thread.
pub struct AllocOutcome {
    /// The header for this allocation, magic tag live.
    pub header: AllocationHeader,
    /// Whether the sampling policy selected this allocation.
    pub sampled: bool,
    /// Whether a deep dump is owed: the thread is armed and the walk
    /// attributed a freshly resolved frame.
    pub deep_dump: bool,
}

impl MyAllocator {
    /// The state's structural invariant: table and bitmaps have their
    /// fixed sizes.
    pub open spec fn wf(self) -> bool {
        &&& self.counters.wf()
        &&& self.skip_filter.wf()
        &&& self.checked_filter.wf()
    }

    /// The id the next operation uses for a thread: its cached id, or the
    /// registry's next one.
    pub open spec fn spec_tid(self, thread: ThreadState) -> usize {
        match thread.tid {
            Some(t) => t,
            None => self.registry.next,
        }
    }

    /// A fresh tracker: no ids assigned, all counters zero, both filters
    /// clear, sanity zero, tracking not enabled.
    pub fn new() -> (t: MyAllocator)
        ensures
            t.wf(),
            t.registry.next == 0,
            t.counters.model() =~= CounterModel::zero(),
            t.skip_filter.as_set() =~= Set::<nat>::empty(),
            t.checked_filter.as_set() =~= Set::<nat>::empty(),
            t.sanity == 0,
            !t.enabled,
    {
        MyAllocator {
            registry: ThreadRegistry::new(),
            counters: CounterTable::new(),
            skip_filter: FilterBitmap::new(),
            checked_filter: FilterBitmap::new(),
            sanity: 0,
            enabled: false,
        }
    }

    /// The allocation path. The backing allocator has already granted the
    /// memory (had it failed, nothing would be recorded); this records the
    /// allocation: it resolves the calling thread's id, counts the bytes
    /// into its bucket, decides sampling — never while the thread's
    /// reentrancy flag is up, always at or above the size threshold, else
    /// on a zero draw — walks the captured `frames` against the filter
    /// bitmaps with the resolution verdicts `ignored`, and returns the
    /// header to place in front of the payload, with the attributed
    /// call-site address or zero. `dump_armed` says whether the thread's
    /// deep-dump marker file existed at the check.
    pub fn record_alloc(
        &mut self,
        thread: &mut ThreadState,
        size: usize,
        draw: usize,
        frames: &Vec<u64>,
        ignored: &Vec<bool>,
        dump_armed: bool,
    ) -> (out: AllocOutcome)
        requires
            old(self).wf(),
            old(thread).wf(old(self).registry),
            old(thread).tid is None ==> old(self).registry.next < usize::MAX,
            draw < SAMPLE_DRAW_BOUND,
            frames@.len() == ignored@.len(),
        ensures
            final(self).wf(),
            final(thread).wf(final(self).registry),
            final(thread).tid == Some(old(self).spec_tid(*old(thread))),
            final(thread).in_trace == old(thread).in_trace,
            final(thread).marker == old(thread).marker,
            old(thread).tid is Some ==> final(self).registry == old(self).registry,
            old(thread).tid is None ==> final(self).registry.next == old(self).registry.next + 1,
            final(self).counters.model() == apply_event(
                old(self).counters.model(),
                CounterEvent::Alloc { tid: old(self).spec_tid(*old(thread)), size },
            ),
            out.header.magic == MAGIC_LIVE,
            out.header.size == size as u64,
            out.header.tid == old(self).spec_tid(*old(thread)) as u64,
            out.sampled == spec_should_capture(*old(thread), size, draw),
            ({
                let o = spec_walk(
                    old(self).skip_filter.as_set(),
                    old(self).checked_filter.as_set(),
                    frames@,
                    ignored@,
                    1,
                );
                &&& (out.sampled ==> final(self).skip_filter.as_set() == o.skip)
                &&& (out.sampled ==> final(self).checked_filter.as_set() == o.checked)
                &&& (out.sampled ==> out.header.addr == (match o.attribution {
                    Some(a) => a,
                    None => 0u64,
                }))
                &&& (out.sampled ==> out.deep_dump == (dump_armed && o.fresh))
                &&& (!out.sampled ==> final(self).skip_filter == old(self).skip_filter)
                &&& (!out.sampled ==> final(self).checked_filter == old(self).checked_filter)
                &&& (!out.sampled ==> out.header.addr == 0u64)
                &&& (!out.sampled ==> !out.deep_dump)
            }),
            final(self).sanity == old(self).sanity,
            final(self).enabled == old(self).enabled,
    {
        self.sanity = self.sanity.wrapping_add(1);
        let tid = get_tid(&mut self.registry, thread);
        self.counters.on_alloc(tid, size);
        let mut addr: u64 = 0;
        let mut fresh = false;
        let mut sampled = false;
        let entered = trace_begin(thread);
        if entered {
            if should_sample(size, draw) {
                sampled = true;
                let walk = attribute_frames(
                    &mut self.skip_filter,
                    &mut self.checked_filter,
                    frames,
                    ignored,
                );
                match walk.0 {
                    Some(x) => {
                        addr = x;
                    },
                    None => {},
                }
                fresh = walk.1;
            }
            trace_end(thread);
        }
        let header = AllocationHeader { magic: MAGIC_LIVE, size: size as u64, tid: tid as u64, addr };
        let deep_dump = sampled && fresh && dump_armed;
        self.sanity = self.sanity.wrapping_sub(1);
        AllocOutcome { header, sampled, deep_dump }
    }

    /// The deallocation path. Reads the owning thread's id out of the
    /// header, takes the bytes and the allocation out of that bucket, and
    /// invalidates the header's magic tag. Returns whether the tag still
    /// read live — false signals a double free or corruption, which is
    /// advisory only: the path never aborts.
    pub fn record_dealloc(&mut self, header: &mut AllocationHeader, size: usize) -> (was_live: bool)
        requires
            old(self).wf(),
        ensures
            final(self).wf(),
            was_live == (old(header).magic == MAGIC_LIVE),
            *final(header) == (AllocationHeader { magic: MAGIC_FREED, ..*old(header) }),
            final(self).counters.model() == apply_event(
                old(self).counters.model(),
                CounterEvent::Dealloc { tid: old(header).tid as usize, size },
            ),
            final(self).registry == old(self).registry,
            final(self).skip_filter == old(self).skip_filter,
            final(self).checked_filter == old(self).checked_filter,
            final(self).sanity == old(self).sanity,
            final(self).enabled == old(self).enabled,
    {
        self.sanity = self.sanity.wrapping_add(1);
        let was_live = header.is_live();
        header.mark_freed();
        let tid = #[verifier::truncate] (header.tid as usize);
        self.counters.on_dealloc(tid, size);
        self.sanity = self.sanity.wrapping_sub(1);
        was_live
    }

    /// Takes the reporting snapshot: every non-empty bucket's (count,
    /// bytes) and the grand totals. Mutates nothing.
    pub fn report(&self) -> (snap: CounterSnapshot)
        requires
            self.wf(),
        ensures
            snap.total_bytes == crate::report::wsum(
                self.counters.model().bytes,
                crate::counters::COUNTERS_SIZE as int,
            ),
            snap.total_count == crate::report::wsum(
                self.counters.model().counts,
                crate::counters::COUNTERS_SIZE as int,
            ),
            forall|k: int|
                0 <= k < snap.entries@.len() ==> {
                    let e = #[trigger] snap.entries@[k];
                    &&& e.bucket < crate::counters::COUNTERS_SIZE
                    &&& e.bytes == self.counters.model().bytes[e.bucket as int]
                    &&& e.count == self.counters.model().counts[e.bucket as int]
                    &&& e.bytes != 0usize
                },
            forall|k1: int, k2: int|
                0 <= k1 < k2 < snap.entries@.len() ==> snap.entries@[k1].bucket
                    < snap.entries@[k2].bucket,
            forall|b: int|
                0 <= b < crate::counters::COUNTERS_SIZE && self.counters.model().bytes[b]
                    != 0usize ==> exists|k: int|
                    0 <= k < snap.entries@.len() && (#[trigger] snap.entries@[k]).bucket == b,
    {
        snapshot(&self.counters)
    }
}

/// Enables deep-dump tracking for the calling thread: records the thread's
/// marker id, assigning the thread an identity if it has none yet, and
/// turns the global enabled flag on. Idempotent per thread: a thread that
/// already holds a marker is left untouched. The marker name only labels
/// the thread's diagnostic file; the id recorded is the thread's own.
pub fn enable_tracking(tracker: &mut MyAllocator, thread: &mut ThreadState, _name: &str)
    requires
        old(tracker).wf(),
        old(thread).wf(old(tracker).registry),
        old(thread).marker is None && old(thread).tid is None ==> old(tracker).registry.next
            < usize::MAX,
    ensures
        final(tracker).wf(),
        final(thread).wf(final(tracker).registry),
        final(tracker).enabled,
        final(tracker).counters == old(tracker).counters,
        final(tracker).skip_filter == old(tracker).skip_filter,
        final(tracker).checked_filter == old(tracker).checked_filter,
        final(tracker).sanity == old(tracker).sanity,
        final(thread).in_trace == old(thread).in_trace,
        old(thread).marker is Some ==> *final(thread) == *old(thread) && final(tracker).registry
            == old(tracker).registry,
        old(thread).marker is None ==> final(thread).marker == Some(
            old(tracker).spec_tid(*old(thread)),
        ) && final(thread).tid == Some(old(tracker).spec_tid(*old(thread))),
{
    tracker.enabled = true;
    if thread.marker.is_none() {
        let tid = get_tid(&mut tracker.registry, thread);
        thread.marker = Some(tid);
    }
}

/// The sanity counter's current value: zero exactly when no tracker
/// operation is in flight.
pub fn get_sanity_val(tracker: &MyAllocator) -> (v: usize)
    ensures
        v == tracker.sanity,
{
    tracker.sanity
}

/// The allocation path with the library drawing the random sample itself.
/// The draw is random, so the walk's outcome below the size threshold
/// depends on it; but at or above the threshold the allocation is sampled
/// whatever the draw, and the counting and the header's identity fields
/// never depend on it.
pub fn alloc_sampled(
    tracker: &mut MyAllocator,
    thread: &mut ThreadState,
    size: usize,
    frames: &Vec<u64>,
    ignored: &Vec<bool>,
    dump_armed: bool,
) -> (out: AllocOutcome)
    requires
        old(tracker).wf(),
        old(thread).wf(old(tracker).registry),
        old(thread).tid is None ==> old(tracker).registry.next < usize::MAX,
        frames@.len() == ignored@.len(),
    ensures
        final(tracker).wf(),
        final(thread).wf(final(tracker).registry),
        final(thread).tid == Some(old(tracker).spec_tid(*old(thread))),
        final(thread).in_trace == old(thread).in_trace,
        final(thread).marker == old(thread).marker,
        final(tracker).counters.model() == apply_event(
            old(tracker).counters.model(),
            CounterEvent::Alloc { tid: old(tracker).spec_tid(*old(thread)), size },
        ),
        out.header.magic == MAGIC_LIVE,
        out.header.size == size as u64,
        out.header.tid == old(tracker).spec_tid(*old(thread)) as u64,
        size >= crate::sampler::LARGE_ALLOCATION_THRESHOLD && !old(thread).in_trace
            ==> out.sampled,
        old(thread).in_trace ==> !out.sampled,
        ({
            let o = spec_walk(
                old(tracker).skip_filter.as_set(),
                old(tracker).checked_filter.as_set(),
                frames@,
                ignored@,
                1,
            );
            &&& (out.sampled ==> final(tracker).skip_filter.as_set() == o.skip)
            &&& (out.sampled ==> final(tracker).checked_filter.as_set() == o.checked)
            &&& (out.sampled ==> out.header.addr == (match o.attribution {
                Some(a) => a,
                None => 0u64,
            }))
            &&& (out.sampled ==> out.deep_dump == (dump_armed && o.fresh))
            &&& (!out.sampled ==> final(tracker).skip_filter == old(tracker).skip_filter)
            &&& (!out.sampled ==> final(tracker).checked_filter == old(tracker).checked_filter)
            &&& (!out.sampled ==> out.header.addr == 0u64)
            &&& (!out.sampled ==> !out.deep_dump)
        }),
        final(tracker).sanity == old(tracker).sanity,
        final(tracker).enabled == old(tracker).enabled,
{
    let draw = sample_draw(SAMPLE_DRAW_BOUND);
    tracker.record_alloc(thread, size, draw, frames, ignored, dump_armed)
}

} // verus!

