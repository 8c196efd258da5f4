use std::sync::atomic::{AtomicU64, Ordering};
use vstd::prelude::*;

use crate::condition_variables::Condition;
use crate::monitor_kind::{hand_over_needed, release_choice, Release};
use crate::semaphore::BinarySemaphore;

verus! {

/// The monitor abstraction implemented with semaphores, with Hoare semantics.
///
/// Every blocking P operation is left to the caller, which repeats the matching
/// `try_` method until it succeeds: entering (`try_enter`), being woken after a
/// wait (`try_wake_from_wait`), and resuming after a signal (`try_resume_signaler`).
///
/// Its values live in atomics that other threads change at any time, and no
/// contract here speaks of them: what a method reads or returns depends on them.
#[derive(Debug)]
pub struct SemaphoreMonitor {
    /// only one thread is allowed to be _inside_ the monitor at any given time
    mutex: BinarySemaphore,
    /// signalers parked after handing the monitor to a waiter block here
    enter_queue: BinarySemaphore,
    /// it is up to the user of the monitor to give meaning to each condition variable
    condvars: Vec<Condition>,
    /// number of signalers parked on `enter_queue`
    next_count: AtomicU64,
}

impl SemaphoreMonitor {
    /// Number of condition variables of the monitor.
    pub closed spec fn num_conditions(&self) -> nat {
        self.condvars@.len()
    }

    /// A free monitor with `num_conds` condition variables.
    pub fn new(num_conds: usize) -> (m: Self)
        ensures
            m.num_conditions() == num_conds,
    {
        let mut condvars: Vec<Condition> = Vec::with_capacity(num_conds);
        let mut i: usize = 0;
        while i < num_conds
            invariant
                i <= num_conds,
                condvars@.len() == i,
            decreases num_conds - i,
        {
            condvars.push(Condition::default());
            i = i + 1;
        }
        SemaphoreMonitor {
            mutex: BinarySemaphore::new(1),
            enter_queue: BinarySemaphore::new(0),
            condvars,
            next_count: AtomicU64::new(0),
        }
    }

    /// Number of condition variables of the monitor.
    pub fn condition_count(&self) -> (n: usize)
        ensures
            n == self.num_conditions(),
    {
        self.condvars.len()
    }

    /// One round of the P operation on the monitor's lock; true when it was taken.
    pub fn try_enter(&self) -> bool {
        self.mutex.P_try()
    }

    /// Gives up the monitor: a parked signaler resumes first, otherwise the lock
    /// is released.
    fn release(&self) {
        match release_choice(self.next_count.load(Ordering::Acquire)) {
            Release::ResumeSignaler => self.enter_queue.V_signal(),
            Release::FreeMonitor => self.mutex.V_signal(),
        }
    }

    /// Leaves the monitor.
    pub fn leave(&self) {
        self.release();
    }

    /// First half of waiting on `condition`: counts this thread as waiting on it and
    /// gives up the monitor. The caller then blocks with `try_wake_from_wait`; once
    /// woken it holds the monitor again, handed over by the signaler.
    pub fn wait_release(&self, condition: usize)
        requires
            condition < self.num_conditions(),
    {
        let cond = &self.condvars[condition];
        // 1. Indicate intention to wait on this condition.
        cond.waiting.fetch_add(1, Ordering::AcqRel);
        // 2. Release the monitor lock, letting a parked signaler resume first.
        self.release();
    }

    /// One round of blocking on `condition` after `wait_release`; true when this
    /// thread was woken by a signal.
    pub fn try_wake_from_wait(&self, condition: usize) -> bool
        requires
            condition < self.num_conditions(),
    {
        self.condvars[condition].sem.P_try()
    }

    /// First half of a Hoare signal on `condition`. When a thread waits on it, counts
    /// this thread as a parked signaler, takes the waiter off the count, wakes it and
    /// returns true: the caller must then block with `try_resume_signaler` and finish
    /// with `signal_finish`. Returns false, changing nothing, when nobody waits.
    pub fn signal_hand_over(&self, condition: usize) -> bool
        requires
            condition < self.num_conditions(),
    {
        let cond = &self.condvars[condition];
        if hand_over_needed(cond.waiting.load(Ordering::Acquire)) {
            self.next_count.fetch_add(1, Ordering::AcqRel);
            cond.waiting.fetch_sub(1, Ordering::AcqRel);
            cond.sem.V_signal();
            true
        } else {
            false
        }
    }

    /// One round of a parked signaler's block on the enter queue; true when the
    /// signaled thread gave the monitor back.
    pub fn try_resume_signaler(&self) -> bool {
        self.enter_queue.P_try()
    }

    /// Last step of a Hoare signal: the signaler no longer counts as parked.
    pub fn signal_finish(&self) {
        self.next_count.fetch_sub(1, Ordering::AcqRel);
    }
}

} // verus!
