use std::sync::atomic::{AtomicUsize, Ordering};
use vstd::prelude::*;

verus! {

/// A binary semaphore implemented with atomic operations.
///
/// Its count is shared with other threads, so no contract here speaks of it: a
/// value read from it may already be stale.
#[derive(Debug)]
pub struct BinarySemaphore {
    count: AtomicUsize,
}

impl BinarySemaphore {
    /// Creates a semaphore whose count starts at `initial`.
    pub fn new(initial: usize) -> Self {
        BinarySemaphore { count: AtomicUsize::new(initial) }
    }

    /// One round of the P (wait) operation: when the count is zero, spins briefly and
    /// reports failure; otherwise tries to decrement it from the value it read.
    /// Returns true exactly when this round took one unit of the count; the caller
    /// repeats the round until it does.
    #[allow(non_snake_case)]
    pub fn P_try(&self) -> bool {
        let current = self.count.load(Ordering::Relaxed);
        if current == 0 {
            // crude delay before the caller looks again
            for _i in 0..10_000u32 {
                let _ = self.count.load(Ordering::Relaxed);
            }
            false
        } else {
            self.count.compare_exchange(current, current - 1, Ordering::Acquire, Ordering::Relaxed).is_ok()
        }
    }

    /// The V (signal) operation: makes one unit available. The semaphore is binary,
    /// so the count becomes one whatever it was.
    #[allow(non_snake_case)]
    pub fn V_signal(&self) {
        self.count.store(1, Ordering::Release);
    }
}

} // verus!
