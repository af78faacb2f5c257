//! Thread identity registry: hands every calling thread a stable small
//! integer id on first use, cached thereafter and never reused.

use vstd::prelude::*;

verus! {

/// The process-wide source of thread identities: a single monotonically
/// increasing counter. Ids are assigned once and never reclaimed.
pub struct ThreadRegistry {
    /// The id that the next first-time caller will receive.
    pub next: usize,
}

/// The tracker state that a single thread exclusively owns: its cached
/// identity, its reentrancy flag, and its deep-dump marker. No other thread
/// ever reads or writes it.
pub struct ThreadState {
    /// The thread's identity, assigned on its first allocation and cached
    /// for the thread's lifetime.
    pub tid: Option<usize>,
    /// True while this thread is inside stack capture for one of its own
    /// allocations; guards against unbounded recursive capture.
    pub in_trace: bool,
    /// The id under which this thread opted into deep dumps, if any.
    pub marker: Option<usize>,
}

impl ThreadState {
    /// Every id this thread holds was handed out by the registry, so it
    /// lies strictly below the registry's next id.
    pub open spec fn wf(self, reg: ThreadRegistry) -> bool {
        &&& (self.tid matches Some(t) ==> t < reg.next)
        &&& (self.marker matches Some(m) ==> m < reg.next)
    }

    /// The state of a thread that has never touched the tracker.
    pub fn new() -> (t: ThreadState)
        ensures
            t.tid is None,
            !t.in_trace,
            t.marker is None,
    {
        ThreadState { tid: None, in_trace: false, marker: None }
    }
}

impl ThreadRegistry {
    /// A registry that has assigned no id yet.
    pub fn new() -> (r: ThreadRegistry)
        ensures
            r.next == 0,
    {
        ThreadRegistry { next: 0 }
    }
}

/// Returns the calling thread's identity. The first call on a thread takes
/// the registry's next id and caches it in the thread's own state; later
/// calls return the cached id and leave the registry untouched.
pub fn get_tid(reg: &mut ThreadRegistry, thread: &mut ThreadState) -> (tid: usize)
    requires
        old(thread).wf(*old(reg)),
        old(thread).tid is None ==> old(reg).next < usize::MAX,
    ensures
        final(thread).wf(*final(reg)),
        final(thread).tid == Some(tid),
        final(thread).in_trace == old(thread).in_trace,
        final(thread).marker == old(thread).marker,
        tid < final(reg).next,
        match old(thread).tid {
            Some(t) => tid == t && *final(reg) == *old(reg) && *final(thread) == *old(thread),
            None => tid == old(reg).next && final(reg).next == old(reg).next + 1,
        },
{
    match thread.tid {
        Some(t) => t,
        None => {
            let t = reg.next;
            reg.next = reg.next + 1;
            thread.tid = Some(t);
            t
        },
    }
}

/// The id that the k-th first-time caller after registry state `reg`
/// receives, counting assignments in the order the registry serves them.
pub open spec fn assigned_id(reg: ThreadRegistry, k: nat) -> int {
    reg.next + k
}

/// Identity assignment is injective: whenever two threads each receive a
/// fresh id — at whatever points of the assignment order — the ids differ.
/// Together with `get_tid`'s contract (a cached thread always gets its own
/// id back, and a fresh assignment advances the registry), no two threads
/// ever share an id.
pub proof fn lemma_identity_assignment_injective(reg: ThreadRegistry, j: nat, k: nat)
    requires
        j != k,
    ensures
        assigned_id(reg, j) != assigned_id(reg, k),
{
}

} // verus!
