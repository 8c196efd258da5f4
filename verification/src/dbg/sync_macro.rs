use std::sync::atomic::{AtomicUsize, Ordering};
use vstd::prelude::*;

use crate::semaphore_monitor::SemaphoreMonitor;

verus! {

/// A counter guarded by its own semaphore monitor, which callers enter around every
/// increment.
///
/// Its values live in atomics that other threads change at any time, and no
/// contract here speaks of them: what a method reads or returns depends on them.
pub struct SyncedStruct {
    monitor: SemaphoreMonitor,
    counter: AtomicUsize,
}

impl SyncedStruct {
    /// The monitor that guards the counter.
    pub closed spec fn guard(&self) -> SemaphoreMonitor {
        self.monitor
    }

    /// The monitor to enter around an increment.
    pub fn monitor(&self) -> (m: &SemaphoreMonitor)
        ensures
            *m == self.guard(),
    {
        &self.monitor
    }

    /// A counter at zero with a monitor of one condition variable.
    pub fn new() -> (s: Self)
        ensures
            s.guard().num_conditions() == 1,
    {
        SyncedStruct { monitor: SemaphoreMonitor::new(1), counter: AtomicUsize::new(0) }
    }

    /// Body of an increment, to run while holding `monitor`: reads the counter,
    /// calls `pause`, writes back the value read plus one (wrapping at the top of the
    /// range), and calls `pause` again.
    pub fn increment_locked<F: Fn()>(&self, pause: &F)
        requires
            call_requires(*pause, ()),
    {
        let current_value = self.counter.load(Ordering::Relaxed);
        pause();
        self.counter.store(current_value.wrapping_add(1), Ordering::Relaxed);
        pause();
    }

    /// The current value of the counter.
    pub fn get_counter(&self) -> usize {
        self.counter.load(Ordering::Relaxed)
    }
}

} // verus!
