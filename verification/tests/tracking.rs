use memory_tracker::header::{MAGIC_FREED, MAGIC_LIVE};
use memory_tracker::ident::{get_tid, ThreadRegistry, ThreadState};
use memory_tracker::report::CounterSnapshot;
use memory_tracker::tracker::{enable_tracking, get_sanity_val, MyAllocator};

fn no_frames() -> (Vec<u64>, Vec<bool>) {
    (Vec::new(), Vec::new())
}

#[test]
fn same_thread_same_id_fresh_threads_distinct_ids() {
    let mut reg = ThreadRegistry::new();
    let mut a = ThreadState::new();
    let mut b = ThreadState::new();
    let ta1 = get_tid(&mut reg, &mut a);
    let tb1 = get_tid(&mut reg, &mut b);
    let ta2 = get_tid(&mut reg, &mut a);
    let tb2 = get_tid(&mut reg, &mut b);
    assert_eq!(ta1, 0);
    assert_eq!(tb1, 1);
    assert_eq!(ta1, ta2);
    assert_eq!(tb1, tb2);
    assert_ne!(ta1, tb1);
}

#[test]
fn alloc_then_dealloc_is_net_zero_for_the_bucket() {
    let mut t = MyAllocator::new();
    let mut thread = ThreadState::new();
    let (frames, ignored) = no_frames();
    let out = t.record_alloc(&mut thread, 2000, 5, &frames, &ignored, false);
    // 2000 bytes is above the large-allocation threshold: always sampled.
    assert!(out.sampled);
    assert_eq!(out.header.magic, MAGIC_LIVE);
    assert_eq!(out.header.size, 2000);
    assert_eq!(out.header.tid, 0);
    // No usable frames were handed in, so attribution stays unresolved.
    assert_eq!(out.header.addr, 0);
    let snap: CounterSnapshot = t.report();
    assert_eq!(snap.entries.len(), 1);
    assert_eq!(snap.entries[0].bucket, 0);
    assert_eq!(snap.entries[0].count, 1);
    assert_eq!(snap.entries[0].bytes, 2000);
    assert_eq!(snap.total_count, 1);
    assert_eq!(snap.total_bytes, 2000);

    let mut header = out.header;
    let was_live = t.record_dealloc(&mut header, 2000);
    assert!(was_live);
    assert_eq!(header.magic, MAGIC_FREED);
    let snap = t.report();
    assert_eq!(snap.entries.len(), 0);
    assert_eq!(snap.total_count, 0);
    assert_eq!(snap.total_bytes, 0);
    assert_eq!(get_sanity_val(&t), 0);
}

#[test]
fn attribution_above_threshold_yields_frame_or_unresolved() {
    let mut t = MyAllocator::new();
    let mut thread = ThreadState::new();
    // Frame 0 is the trampoline and is skipped; frame 1 is a plausible
    // user address and resolves to an interesting symbol.
    let frames = vec![0x1000u64, 0x2000u64];
    let ignored = vec![false, false];
    let out = t.record_alloc(&mut thread, 2000, 99, &frames, &ignored, false);
    assert!(out.sampled);
    assert_eq!(out.header.addr, 0x2000);
    let mut header = out.header;
    t.record_dealloc(&mut header, 2000);
    let snap = t.report();
    assert_eq!(snap.total_count, 0);
    assert_eq!(snap.total_bytes, 0);
}

#[test]
fn interleaved_balanced_cycles_drain_to_zero() {
    let mut t = MyAllocator::new();
    let mut threads = [
        ThreadState::new(),
        ThreadState::new(),
        ThreadState::new(),
        ThreadState::new(),
    ];
    let (frames, ignored) = no_frames();
    for _cycle in 0..1000 {
        let mut headers = Vec::new();
        for thread in threads.iter_mut() {
            let out = t.record_alloc(thread, 500, 1, &frames, &ignored, false);
            headers.push(out.header);
        }
        for header in headers.iter_mut() {
            let was_live = t.record_dealloc(header, 500);
            assert!(was_live);
        }
    }
    let snap = t.report();
    assert_eq!(snap.entries.len(), 0);
    assert_eq!(snap.total_count, 0);
    assert_eq!(snap.total_bytes, 0);
    assert_eq!(get_sanity_val(&t), 0);
}

#[test]
fn small_allocations_sample_only_on_zero_draw() {
    let mut t = MyAllocator::new();
    let mut thread = ThreadState::new();
    let (frames, ignored) = no_frames();
    let out = t.record_alloc(&mut thread, 500, 1, &frames, &ignored, false);
    assert!(!out.sampled);
    let out = t.record_alloc(&mut thread, 500, 0, &frames, &ignored, false);
    assert!(out.sampled);
    let out = t.record_alloc(&mut thread, 1023, 99, &frames, &ignored, false);
    assert!(!out.sampled);
    let out = t.record_alloc(&mut thread, 1024, 99, &frames, &ignored, false);
    assert!(out.sampled);
}

#[test]
fn nested_allocation_during_capture_is_counted_but_not_sampled() {
    let mut t = MyAllocator::new();
    // A thread that is mid-capture for one of its own allocations.
    let mut thread = ThreadState {
        tid: None,
        in_trace: true,
        marker: None,
    };
    let frames = vec![0x1000u64, 0x2000u64];
    let ignored = vec![false, false];
    let out = t.record_alloc(&mut thread, 4096, 0, &frames, &ignored, true);
    assert!(!out.sampled);
    assert_eq!(out.header.addr, 0);
    assert!(!out.deep_dump);
    // The allocation itself is still counted.
    let snap = t.report();
    assert_eq!(snap.total_count, 1);
    assert_eq!(snap.total_bytes, 4096);
}

#[test]
fn trace_begin_refuses_second_level() {
    let mut thread = ThreadState::new();
    assert!(memory_tracker::sampler::trace_begin(&mut thread));
    // Nested capture on the same thread is refused.
    assert!(!memory_tracker::sampler::trace_begin(&mut thread));
    memory_tracker::sampler::trace_end(&mut thread);
    assert!(memory_tracker::sampler::trace_begin(&mut thread));
}

#[test]
fn enable_tracking_assigns_marker_once() {
    let mut t = MyAllocator::new();
    let mut thread = ThreadState::new();
    enable_tracking(&mut t, &mut thread, "memory_tracker");
    assert_eq!(thread.marker, Some(0));
    assert_eq!(thread.tid, Some(0));
    // Idempotent per thread: a second call changes nothing.
    enable_tracking(&mut t, &mut thread, "memory_tracker");
    assert_eq!(thread.marker, Some(0));
    assert_eq!(get_sanity_val(&t), 0);
}

#[test]
fn report_lists_nonempty_buckets_in_order() {
    let mut t = MyAllocator::new();
    let mut threads = [ThreadState::new(), ThreadState::new(), ThreadState::new()];
    let (frames, ignored) = no_frames();
    // Assign ids 0, 1, 2; then leave only buckets 0 and 2 non-empty.
    let out0 = t.record_alloc(&mut threads[0], 100, 1, &frames, &ignored, false);
    let out1 = t.record_alloc(&mut threads[1], 200, 1, &frames, &ignored, false);
    let _out2 = t.record_alloc(&mut threads[2], 300, 1, &frames, &ignored, false);
    let mut h1 = out1.header;
    t.record_dealloc(&mut h1, 200);
    let snap = t.report();
    assert_eq!(snap.entries.len(), 2);
    assert_eq!(snap.entries[0].bucket, 0);
    assert_eq!(snap.entries[0].bytes, 100);
    assert_eq!(snap.entries[1].bucket, 2);
    assert_eq!(snap.entries[1].bytes, 300);
    assert_eq!(snap.total_bytes, 400);
    assert_eq!(snap.total_count, 2);
    let mut h0 = out0.header;
    assert!(t.record_dealloc(&mut h0, 100));
    // Freeing the same header again is advisory-detectable: not live.
    assert!(!t.record_dealloc(&mut h0, 100));
}

#[test]
fn small_allocation_sampling_rate_is_low_but_not_zero() {
    let mut t = MyAllocator::new();
    let mut thread = ThreadState::new();
    let (frames, ignored) = no_frames();
    let mut sampled = 0usize;
    let trials = 2000usize;
    for _ in 0..trials {
        let out = memory_tracker::tracker::alloc_sampled(
            &mut t,
            &mut thread,
            500,
            &frames,
            &ignored,
            false,
        );
        if out.sampled {
            sampled += 1;
        }
    }
    // One draw in a hundred samples: over 2000 trials the count is
    // overwhelmingly likely to land well inside this band, and a draw
    // source stuck at zero (rate one) or never zero (rate zero) fails it.
    assert!(sampled >= 1, "no small allocation was ever sampled");
    assert!(sampled <= 200, "small allocations sampled far too often: {}", sampled);
}

#[test]
fn random_draws_never_disturb_the_counters() {
    let mut t = MyAllocator::new();
    let mut thread = ThreadState::new();
    let (frames, ignored) = no_frames();
    for _ in 0..200 {
        let out = memory_tracker::tracker::alloc_sampled(
            &mut t,
            &mut thread,
            500,
            &frames,
            &ignored,
            false,
        );
        assert_eq!(out.header.size, 500);
    }
    // Large allocations are sampled whatever the library draws.
    let out = memory_tracker::tracker::alloc_sampled(&mut t, &mut thread, 5000, &frames, &ignored, false);
    assert!(out.sampled);
    let snap = t.report();
    assert_eq!(snap.total_count, 201);
    assert_eq!(snap.total_bytes, 200 * 500 + 5000);
}
