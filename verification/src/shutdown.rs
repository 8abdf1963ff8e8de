//! Models of the shutdown broadcaster and the task tracker.
//!
//! The broadcaster fans one termination signal out to every subscribed loop;
//! the tracker registers spawned background work and drains it on shutdown.
//! The channel and the executor live outside; the states and the rules they
//! must follow are pinned here.

use vstd::prelude::*;

verus! {

/// The state of the shutdown broadcaster: whether termination was signalled,
/// and how many loops subscribed before it runs.
pub struct Shutdown {
    pub signaled: bool,
    pub subscribers: usize,
}

/// The broadcaster after one signal: signalled, whatever it was before.
pub open spec fn spec_signal(s: Shutdown) -> Shutdown {
    Shutdown { signaled: true, subscribers: s.subscribers }
}

impl Shutdown {
    pub fn new() -> (r: Shutdown)
        ensures
            !r.signaled,
            r.subscribers == 0,
    {
        Shutdown { signaled: false, subscribers: 0 }
    }

    /// Registers one more interested loop.
    pub fn subscribe(&mut self)
        requires
            old(self).subscribers < usize::MAX,
        ensures
            final(self).subscribers == old(self).subscribers + 1,
            final(self).signaled == old(self).signaled,
    {
        self.subscribers = self.subscribers + 1;
    }

    /// Fires the termination signal.  Sending again changes nothing.
    pub fn signal(&mut self)
        ensures
            *final(self) == spec_signal(*old(self)),
            final(self).signaled,
    {
        self.signaled = true;
    }

    /// What any subscriber observes when it polls its channel: the signal,
    /// once fired, is seen by every subscriber on every poll.
    pub fn try_recv(&self) -> (r: bool)
        ensures
            r == self.signaled,
    {
        self.signaled
    }
}

/// Shutdown is idempotent: re-sending the signal is a no-op, and once it is
/// sent every subscriber's poll observes it.
pub proof fn lemma_shutdown_idempotent(s: Shutdown)
    ensures
        spec_signal(spec_signal(s)) == spec_signal(s),
        spec_signal(s).signaled,
{
}

/// The state of the process-wide registry of spawned background work.
pub struct TaskTracker {
    pub closed: bool,
    pub outstanding: u64,
}

impl TaskTracker {
    pub fn new() -> (r: TaskTracker)
        ensures
            !r.closed,
            r.outstanding == 0,
    {
        TaskTracker { closed: false, outstanding: 0 }
    }

    /// Registers a spawn.  A closed registry accepts no new work.
    pub fn spawn(&mut self) -> (accepted: bool)
        requires
            old(self).outstanding < u64::MAX,
        ensures
            accepted == !old(self).closed,
            final(self).closed == old(self).closed,
            accepted ==> final(self).outstanding == old(self).outstanding + 1,
            !accepted ==> final(self).outstanding == old(self).outstanding,
    {
        if self.closed {
            false
        } else {
            self.outstanding = self.outstanding + 1;
            true
        }
    }

    /// Records one tracked task's completion.
    pub fn task_done(&mut self)
        requires
            old(self).outstanding > 0,
        ensures
            final(self).outstanding == old(self).outstanding - 1,
            final(self).closed == old(self).closed,
    {
        self.outstanding = self.outstanding - 1;
    }

    /// Closes the registry: no spawn is accepted afterwards.
    pub fn close(&mut self)
        ensures
            final(self).closed,
            final(self).outstanding == old(self).outstanding,
    {
        self.closed = true;
    }

    /// Whether the drain may finish: the wait after closing returns only once
    /// every outstanding task has completed.
    pub fn drained(&self) -> (r: bool)
        ensures
            r == (self.outstanding == 0),
    {
        self.outstanding == 0
    }
}

} // verus!
