use std::sync::atomic::{AtomicU32, AtomicU64, Ordering};
use vstd::prelude::*;

use crate::futex::{futex_wait, futex_wake_all, futex_wake_one};
use crate::monitor_kind::hand_over_needed;
use crate::semaphore::BinarySemaphore;

verus! {

/// A condition variable of the semaphore-based monitor: the number of threads
/// waiting on it, and the semaphore they block on.
#[derive(Debug)]
pub struct Condition {
    pub waiting: AtomicU64,
    pub sem: BinarySemaphore,
}

impl Default for Condition {
    /// No thread waiting, and a semaphore at zero so that waiters block.
    fn default() -> Self {
        Condition { waiting: AtomicU64::new(0), sem: BinarySemaphore::new(0) }
    }
}

/// A condition variable implemented with futexes.
///
/// Its values live in atomics that other threads change at any time, and no
/// contract here speaks of them: what a method reads or returns depends on them.
#[derive(Debug)]
pub struct FutexCondition {
    /// Number of threads waiting on this condition
    waiting: AtomicU32,
    /// Futex word for this condition variable
    futex_word: AtomicU32,
}

impl Default for FutexCondition {
    fn default() -> Self {
        FutexCondition { waiting: AtomicU32::new(0), futex_word: AtomicU32::new(0) }
    }
}

impl FutexCondition {
    /// Waits on this condition variable until a signal or broadcast changes its futex
    /// word (or the futex returns spuriously).
    pub fn wait(&self) {
        let observed = self.prepare_wait();
        self.finish_wait(observed);
    }

    /// First half of a wait: counts this thread as waiting and returns the futex
    /// word it saw. A signal or broadcast after this changes the word, so the wait
    /// that follows cannot miss it.
    pub(crate) fn prepare_wait(&self) -> u32 {
        // Increment waiting count
        self.waiting.fetch_add(1, Ordering::AcqRel);
        // Get current futex value
        self.futex_word.load(Ordering::Acquire)
    }

    /// Second half of a wait: blocks while the futex word still holds `observed`,
    /// then no longer counts this thread as waiting.
    pub(crate) fn finish_wait(&self, observed: u32) {
        // Wait on the futex
        futex_wait(&self.futex_word, observed);
        // We've been woken up, decrement waiting count
        self.waiting.fetch_sub(1, Ordering::AcqRel);
    }

    /// Wakes one waiting thread; returns whether any thread was seen waiting.
    pub fn signal(&self) -> bool {
        let waiting_count = self.waiting.load(Ordering::Acquire);
        if hand_over_needed(u64::from(waiting_count)) {
            // Change the futex word value to wake waiters
            self.futex_word.fetch_add(1, Ordering::AcqRel);
            futex_wake_one(&self.futex_word);
            true
        } else {
            false
        }
    }

    /// Wakes every waiting thread; returns how many were seen waiting.
    pub fn broadcast(&self) -> u32 {
        let waiting_count = self.waiting.load(Ordering::Acquire);
        if waiting_count > 0 {
            // Change the futex word value to wake waiters
            self.futex_word.fetch_add(1, Ordering::AcqRel);
            futex_wake_all(&self.futex_word);
            waiting_count
        } else {
            0
        }
    }

    /// Number of threads currently seen waiting.
    pub fn waiting_count(&self) -> u32 {
        self.waiting.load(Ordering::Acquire)
    }
}

} // verus!
