use std::sync::atomic::{AtomicU32, Ordering};
use vstd::prelude::*;

use crate::condition_variables::FutexCondition;
use crate::futex::{futex_wait, futex_wake_one};
use crate::monitor_kind::{hand_over_needed, release_choice, Release};

verus! {

/// Monitor implementation using futexes with Hoare semantics.
///
/// Entering blocks until the lock is free; the blocking loop belongs to the caller,
/// which repeats [`FutexMonitor::try_enter`] until it succeeds.
///
/// Its values live in atomics that other threads change at any time, and no
/// contract here speaks of them: what a method reads or returns depends on them.
#[derive(Debug)]
pub struct FutexMonitor {
    /// Mutex futex word (0 = unlocked, 1 = locked)
    mutex: AtomicU32,
    /// Condition variables implemented with futexes
    conditions: Vec<FutexCondition>,
    /// Number of threads in the next queue (signaled threads waiting to re-enter)
    next_count: AtomicU32,
    /// Next queue futex for signaled threads
    next_queue: AtomicU32,
}

impl FutexMonitor {
    /// Number of condition variables of the monitor.
    pub closed spec fn num_conditions(&self) -> nat {
        self.conditions@.len()
    }

    /// A monitor with `num_conditions` condition variables, unlocked.
    pub fn new(num_conditions: usize) -> (m: Self)
        ensures
            m.num_conditions() == num_conditions,
    {
        let mut conditions: Vec<FutexCondition> = Vec::with_capacity(num_conditions);
        let mut i: usize = 0;
        while i < num_conditions
            invariant
                i <= num_conditions,
                conditions@.len() == i,
            decreases num_conditions - i,
        {
            conditions.push(FutexCondition::default());
            i = i + 1;
        }
        FutexMonitor {
            mutex: AtomicU32::new(0),  // 0 = unlocked
            conditions,
            next_count: AtomicU32::new(0),
            next_queue: AtomicU32::new(0),
        }
    }

    /// Number of condition variables of the monitor.
    pub fn condition_count(&self) -> (n: usize)
        ensures
            n == self.num_conditions(),
    {
        self.conditions.len()
    }

    /// One attempt to take the monitor's lock: swaps it from unlocked to locked, and
    /// when it is held blocks on its futex until it changes. Returns true exactly when
    /// the lock was taken; the caller repeats the attempt until it is.
    pub fn try_enter(&self) -> bool {
        match self.mutex.compare_exchange_weak(0, 1, Ordering::AcqRel, Ordering::Relaxed) {
            Ok(_) => true,
            Err(current) => {
                // Mutex is locked, wait for it
                if current == 1 {
                    futex_wait(&self.mutex, 1);
                }
                false
            },
        }
    }

    /// Release the monitor mutex and wake waiters
    fn release_mutex(&self) {
        self.mutex.store(0, Ordering::Release);
        futex_wake_one(&self.mutex);
    }

    /// Wait on the next queue
    fn wait_next_queue(&self) {
        let current_val = self.next_queue.load(Ordering::Acquire);
        futex_wait(&self.next_queue, current_val);
    }

    /// Signal the next queue
    fn signal_next_queue(&self) {
        self.next_queue.fetch_add(1, Ordering::AcqRel);
        futex_wake_one(&self.next_queue);
    }

    /// Gives up the monitor: a signaler waiting in the next queue resumes first,
    /// otherwise the lock is released.
    fn release(&self) {
        let next_count = self.next_count.load(Ordering::Acquire);
        match release_choice(u64::from(next_count)) {
            Release::ResumeSignaler => self.signal_next_queue(),
            Release::FreeMonitor => self.release_mutex(),
        }
    }

    /// Leaves the monitor.
    pub fn leave(&self) {
        self.release();
    }

    /// Gives up the monitor and waits on condition `condition` until signaled.
    pub fn wait(&self, condition: usize)
        requires
            condition < self.num_conditions(),
    {
        // Count this thread as a waiter before giving up the monitor, so that a
        // signal sent as soon as the monitor is released finds it
        let observed = self.conditions[condition].prepare_wait();
        self.release();
        // Wait on the condition variable; the signaler hands the monitor over
        self.conditions[condition].finish_wait(observed);
    }

    /// Hoare signal: when a thread waits on `condition`, wakes it and parks in the
    /// next queue until it gives the monitor back; otherwise does nothing.
    pub fn signal(&self, condition: usize)
        requires
            condition < self.num_conditions(),
    {
        if hand_over_needed(u64::from(self.conditions[condition].waiting_count())) {
            // a thread will be in the next queue
            self.next_count.fetch_add(1, Ordering::AcqRel);
            // wake one waiter
            self.conditions[condition].signal();
            // the signaling thread now waits on the next queue
            self.wait_next_queue();
            // the signaled thread has finished and signaled us back
            self.next_count.fetch_sub(1, Ordering::AcqRel);
        }
    }

    /// Mesa signal: wakes one waiter of `condition` without giving up the monitor.
    pub fn notify(&self, condition: usize)
        requires
            condition < self.num_conditions(),
    {
        self.conditions[condition].signal();
    }

    /// Wakes every waiter of `condition` without giving up the monitor; returns how
    /// many threads were seen waiting.
    pub fn broadcast(&self, condition: usize) -> u32
        requires
            condition < self.num_conditions(),
    {
        self.conditions[condition].broadcast()
    }
}

} // verus!
