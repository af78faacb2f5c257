//! Sampler and attributor: decides whether an allocation's stack is
//! captured, and walks the captured frames against the filter bitmaps to
//! pick one attributed call-site address.

use crate::filter::{FilterBitmap, FILTER_SLOTS};
use crate::hash::{murmur64, spec_murmur64};
use crate::ident::ThreadState;
use vstd::prelude::*;

verus! {

/// Allocations at or above this many bytes are always sampled.
pub const LARGE_ALLOCATION_THRESHOLD: usize = 1024;

/// Allocations below the threshold are sampled when a uniform draw from
/// `0..SAMPLE_DRAW_BOUND` lands on zero — a fixed probability of one in
/// this bound.
pub const SAMPLE_DRAW_BOUND: usize = 100;

/// Return addresses at or above this boundary are not resolvable user code
/// and are never attributed.
pub const HIGH_ADDRESS_BOUNDARY: u64 = 0x700000000000;

/// How many frames a routine sampled capture takes.
pub const MAX_FRAMES: usize = 10;

/// How many frames a deep dump captures.
pub const DEEP_DUMP_FRAMES: usize = 256;

/// The sampling policy: always sample large allocations; sample the rest
/// exactly when the random draw is zero.
pub open spec fn spec_should_sample(size: usize, draw: usize) -> bool {
    size >= LARGE_ALLOCATION_THRESHOLD || draw == 0
}

/// Whether an allocation of `size` bytes with random draw `draw` is
/// sampled.
pub fn should_sample(size: usize, draw: usize) -> (r: bool)
    ensures
        r == spec_should_sample(size, draw),
{
    size >= LARGE_ALLOCATION_THRESHOLD || draw == 0
}

/// Sampling frequency: at or above the large-allocation threshold every
/// draw samples — the observed rate is one. Below it, exactly the zero
/// draw samples — one outcome of the whole draw range.
pub proof fn lemma_sampling_rate(size: usize)
    ensures
        size >= LARGE_ALLOCATION_THRESHOLD ==> forall|d: usize| spec_should_sample(size, d),
        size < LARGE_ALLOCATION_THRESHOLD ==> forall|d: usize|
            #[trigger] spec_should_sample(size, d) <==> d == 0,
{
}

/// Relies on rand::Rng::gen_range on the thread-local generator: a draw
/// uniform over the half-open range `0..bound`, so always below `bound`.
#[verifier::external_body]
pub(crate) fn sample_draw(bound: usize) -> (d: usize)
    requires
        bound > 0,
    ensures
        d < bound,
{
    rand::Rng::gen_range(&mut rand::thread_rng(), 0..bound)
}

/// Whether a thread about to allocate would enter stack capture: never
/// while its reentrancy flag is up, else per the sampling policy.
pub open spec fn spec_should_capture(t: ThreadState, size: usize, draw: usize) -> bool {
    !t.in_trace && spec_should_sample(size, draw)
}

/// Reentrancy is bounded to exactly one level: while a thread is inside
/// capture, a nested allocation on that same thread never enters capture
/// again, whatever its size and whatever the draw.
pub proof fn lemma_capture_depth_bounded(t: ThreadState, size: usize, draw: usize)
    requires
        t.in_trace,
    ensures
        !spec_should_capture(t, size, draw),
{
}

/// Raises the calling thread's reentrancy flag. Returns false — and
/// changes nothing — if the flag was already up: the caller must then skip
/// capture entirely.
pub fn trace_begin(thread: &mut ThreadState) -> (entered: bool)
    ensures
        entered == !old(thread).in_trace,
        final(thread).in_trace,
        final(thread).tid == old(thread).tid,
        final(thread).marker == old(thread).marker,
        !entered ==> *final(thread) == *old(thread),
{
    if thread.in_trace {
        false
    } else {
        thread.in_trace = true;
        true
    }
}

/// Lowers the calling thread's reentrancy flag after capture.
pub fn trace_end(thread: &mut ThreadState)
    requires
        old(thread).in_trace,
    ensures
        *final(thread) == (ThreadState { in_trace: false, ..*old(thread) }),
{
    thread.in_trace = false;
}

/// The filter slot a return address hashes into.
pub open spec fn slot_of(addr: u64) -> u64 {
    spec_murmur64(addr) % FILTER_SLOTS
}

/// What one frame walk produces: the two filter states it leaves behind,
/// the attributed address if any frame was accepted, and whether the
/// acceptance resolved a symbol anew (setting a checked bit) rather than
/// hitting an already-checked slot.
pub ghost struct WalkOutcome {
    pub skip: Set<nat>,
    pub checked: Set<nat>,
    pub attribution: Option<u64>,
    pub fresh: bool,
}

/// The frame walk, from frame `i` on. For each candidate in order: a
/// high address is rejected; a slot on the skip list moves to the next
/// frame; a slot on the checked list is accepted at once; otherwise the
/// frame's resolution verdict (`ignored`) either adds the slot to the skip
/// list and moves on, or adds it to the checked list and accepts. With no
/// frame accepted the attribution stays unresolved.
pub open spec fn spec_walk(
    skip: Set<nat>,
    checked: Set<nat>,
    frames: Seq<u64>,
    ignored: Seq<bool>,
    i: int,
) -> WalkOutcome
    decreases frames.len() - i,
{
    if i < 0 || i >= frames.len() {
        WalkOutcome { skip, checked, attribution: None, fresh: false }
    } else {
        let a = frames[i];
        if a >= HIGH_ADDRESS_BOUNDARY {
            spec_walk(skip, checked, frames, ignored, i + 1)
        } else {
            let s = slot_of(a) as nat;
            if skip.contains(s) {
                spec_walk(skip, checked, frames, ignored, i + 1)
            } else if checked.contains(s) {
                WalkOutcome { skip, checked, attribution: Some(a), fresh: false }
            } else if i < ignored.len() && ignored[i] {
                spec_walk(skip.insert(s), checked, frames, ignored, i + 1)
            } else {
                WalkOutcome { skip, checked: checked.insert(s), attribution: Some(a), fresh: true }
            }
        }
    }
}

/// An accepted attribution is never invented: it is one of the walked
/// frames, and it lies below the high-address boundary. With no frame
/// accepted the walk reports the explicit unresolved marker instead.
pub proof fn lemma_attribution_is_a_low_frame(
    skip: Set<nat>,
    checked: Set<nat>,
    frames: Seq<u64>,
    ignored: Seq<bool>,
    i: int,
    a: u64,
)
    requires
        spec_walk(skip, checked, frames, ignored, i).attribution == Some(a),
    ensures
        a < HIGH_ADDRESS_BOUNDARY,
        exists|j: int| i <= j < frames.len() && frames[j] == a,
    decreases frames.len() - i,
{
    if 0 <= i < frames.len() {
        let f = frames[i];
        if f >= HIGH_ADDRESS_BOUNDARY {
            lemma_attribution_is_a_low_frame(skip, checked, frames, ignored, i + 1, a);
        } else {
            let s = slot_of(f) as nat;
            if skip.contains(s) {
                lemma_attribution_is_a_low_frame(skip, checked, frames, ignored, i + 1, a);
            } else if checked.contains(s) {
                assert(frames[i] == a);
            } else if i < ignored.len() && ignored[i] {
                lemma_attribution_is_a_low_frame(skip.insert(s), checked, frames, ignored, i + 1, a);
            } else {
                assert(frames[i] == a);
            }
        }
    }
}

/// Walks the captured frames — skipping the innermost one, the allocator's
/// own trampoline — and records one attributed return address, updating
/// the skip and checked bitmaps exactly as the walk dictates. `ignored[i]`
/// is the resolution verdict for `frames[i]`: whether its symbol name
/// matched the configured ignore patterns.
pub fn attribute_frames(
    skip: &mut FilterBitmap,
    checked: &mut FilterBitmap,
    frames: &Vec<u64>,
    ignored: &Vec<bool>,
) -> (out: (Option<u64>, bool))
    requires
        old(skip).wf(),
        old(checked).wf(),
        frames@.len() == ignored@.len(),
    ensures
        final(skip).wf(),
        final(checked).wf(),
        ({
            let o = spec_walk(old(skip).as_set(), old(checked).as_set(), frames@, ignored@, 1);
            &&& final(skip).as_set() == o.skip
            &&& final(checked).as_set() == o.checked
            &&& out.0 == o.attribution
            &&& out.1 == o.fresh
        }),
{
    let ghost skip0 = skip.as_set();
    let ghost checked0 = checked.as_set();
    let mut i: usize = 1;
    while i < frames.len()
        invariant
            1 <= i,
            i <= frames@.len() || i == 1,
            skip0 == old(skip).as_set(),
            checked0 == old(checked).as_set(),
            frames@.len() == ignored@.len(),
            skip.wf(),
            checked.wf(),
            spec_walk(skip0, checked0, frames@, ignored@, 1) == spec_walk(
                skip.as_set(),
                checked.as_set(),
                frames@,
                ignored@,
                i as int,
            ),
        decreases frames@.len() - i,
    {
        let ghost cs = skip.as_set();
        let ghost cc = checked.as_set();
        let a = frames[i];
        if a < HIGH_ADDRESS_BOUNDARY {
            let slot = murmur64(a) % FILTER_SLOTS;
            proof {
                assert(slot as nat == slot_of(a) as nat);
            }
            if skip.is_set(slot) {
                proof {
                    assert(spec_walk(cs, cc, frames@, ignored@, i as int) == spec_walk(
                        cs,
                        cc,
                        frames@,
                        ignored@,
                        i + 1,
                    ));
                }
            } else if checked.is_set(slot) {
                proof {
                    assert(spec_walk(cs, cc, frames@, ignored@, i as int) == (WalkOutcome {
                        skip: cs,
                        checked: cc,
                        attribution: Some(a),
                        fresh: false,
                    }));
                    let o = spec_walk(skip0, checked0, frames@, ignored@, 1);
                    assert(o.skip == cs && o.checked == cc && o.attribution == Some(a) && !o.fresh);
                }
                return (Some(a), false);
            } else if ignored[i] {
                skip.set(slot);
                proof {
                    assert(skip.as_set() == cs.insert(slot as nat));
                    assert(spec_walk(cs, cc, frames@, ignored@, i as int) == spec_walk(
                        cs.insert(slot as nat),
                        cc,
                        frames@,
                        ignored@,
                        i + 1,
                    ));
                }
            } else {
                checked.set(slot);
                proof {
                    assert(checked.as_set() == cc.insert(slot as nat));
                    assert(spec_walk(cs, cc, frames@, ignored@, i as int) == (WalkOutcome {
                        skip: cs,
                        checked: cc.insert(slot as nat),
                        attribution: Some(a),
                        fresh: true,
                    }));
                    let o = spec_walk(skip0, checked0, frames@, ignored@, 1);
                    assert(o.skip == cs && o.checked == cc.insert(slot as nat) && o.attribution
                        == Some(a) && o.fresh);
                }
                return (Some(a), true);
            }
        } else {
            proof {
                assert(spec_walk(cs, cc, frames@, ignored@, i as int) == spec_walk(
                    cs,
                    cc,
                    frames@,
                    ignored@,
                    i + 1,
                ));
            }
        }
        i += 1;
    }
    (None, false)
}

} // verus!
