use std::sync::atomic::{AtomicUsize, Ordering};
use vstd::prelude::*;

verus! {

/// A counter that threads update without synchronisation: an increment reads the
/// value, pauses, and writes back the value read plus one, so concurrent increments
/// can be lost.
///
/// Its values live in atomics that other threads change at any time, and no
/// contract here speaks of them: what a method reads or returns depends on them.
#[derive(Debug)]
pub struct UnsafeSharedAccumulator {
    value: AtomicUsize,
}

impl Default for UnsafeSharedAccumulator {
    fn default() -> Self {
        Self::new()
    }
}

impl UnsafeSharedAccumulator {
    /// A counter at zero.
    pub fn new() -> Self {
        UnsafeSharedAccumulator { value: AtomicUsize::new(0) }
    }

    /// The current value.
    pub fn get(&self) -> usize {
        self.value.load(Ordering::Relaxed)
    }

    /// Reads the value, calls `pause`, writes back the value read plus one (wrapping
    /// at the top of the range), and calls `pause` again.
    pub fn increment<F: Fn()>(&self, pause: &F)
        requires
            call_requires(*pause, ()),
    {
        let current_value = self.value.load(Ordering::Relaxed);
        pause();
        self.value.store(current_value.wrapping_add(1), Ordering::Relaxed);
        pause();
    }
}

} // verus!
