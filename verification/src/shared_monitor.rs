use vstd::prelude::*;

use crate::futex_monitor::FutexMonitor;
use crate::monitor_kind::MonitorKind;
use crate::semaphore_monitor::SemaphoreMonitor;

verus! {

/// One of the monitors that can be shared between threads of one process.
pub enum MonitorImpl {
    Semaphore(SemaphoreMonitor),
    Futex(FutexMonitor),
}

/// A monitor whose implementation is chosen at run time.
pub struct SharedMonitor {
    monitor: MonitorImpl,
}

impl SharedMonitor {
    /// The kind of monitor inside.
    pub closed spec fn kind(&self) -> MonitorKind {
        match self.monitor {
            MonitorImpl::Semaphore(_) => MonitorKind::Semaphore,
            MonitorImpl::Futex(_) => MonitorKind::Futex,
        }
    }

    /// Number of condition variables of the monitor inside.
    pub closed spec fn num_conditions(&self) -> nat {
        match self.monitor {
            MonitorImpl::Semaphore(m) => m.num_conditions(),
            MonitorImpl::Futex(m) => m.num_conditions(),
        }
    }

    /// A monitor of the given kind with `num_conds` condition variables. The kind
    /// that goes through a server in another thread is not available here.
    pub fn new(kind: MonitorKind, num_conds: usize) -> (s: Self)
        requires
            kind != MonitorKind::InterProcessCommunication,
        ensures
            s.kind() == kind,
            s.num_conditions() == num_conds,
    {
        let monitor = match kind {
            MonitorKind::Semaphore => MonitorImpl::Semaphore(SemaphoreMonitor::new(num_conds)),
            _ => MonitorImpl::Futex(FutexMonitor::new(num_conds)),
        };
        SharedMonitor { monitor }
    }

    /// The monitor inside, to enter, leave, wait on and signal.
    pub fn implementation(&self) -> (m: &MonitorImpl)
        ensures
            match *m {
                MonitorImpl::Semaphore(s) => self.kind() == MonitorKind::Semaphore && s.num_conditions()
                    == self.num_conditions(),
                MonitorImpl::Futex(f) => self.kind() == MonitorKind::Futex && f.num_conditions()
                    == self.num_conditions(),
            },
    {
        &self.monitor
    }
}

} // verus!
