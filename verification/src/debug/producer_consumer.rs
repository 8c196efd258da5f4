use std::sync::atomic::{AtomicI64, Ordering};
use vstd::prelude::*;

verus! {

/// A shared count of items that producers raise and consumers lower without
/// synchronisation: each update reads the value, pauses, and writes back the value
/// read plus or minus one, so concurrent updates can be lost.
///
/// Its values live in atomics that other threads change at any time, and no
/// contract here speaks of them: what a method reads or returns depends on them.
#[derive(Debug)]
pub struct UnsafeSharedBuffer {
    value: AtomicI64,
}

impl Default for UnsafeSharedBuffer {
    fn default() -> Self {
        Self::new()
    }
}

impl UnsafeSharedBuffer {
    /// An empty buffer.
    pub fn new() -> Self {
        UnsafeSharedBuffer { value: AtomicI64::new(0) }
    }

    /// The current count.
    pub fn get(&self) -> i64 {
        self.value.load(Ordering::Relaxed)
    }

    /// Reads the count, calls `pause`, writes back the count read plus one (wrapping
    /// at the top of the range), and calls `pause` again.
    pub fn produce<F: Fn()>(&self, pause: &F)
        requires
            call_requires(*pause, ()),
    {
        let current_value = self.value.load(Ordering::Relaxed);
        pause();
        self.value.store(current_value.wrapping_add(1), Ordering::Relaxed);
        pause();
    }

    /// Reads the count, calls `pause`, writes back the count read minus one (wrapping
    /// at the bottom of the range), and calls `pause` again.
    pub fn consume<F: Fn()>(&self, pause: &F)
        requires
            call_requires(*pause, ()),
    {
        let current_value = self.value.load(Ordering::Relaxed);
        pause();
        self.value.store(current_value.wrapping_sub(1), Ordering::Relaxed);
        pause();
    }
}

} // verus!
