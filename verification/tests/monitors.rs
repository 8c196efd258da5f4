use monmon::monitor_kind::MonitorKind;
use monmon::shared_monitor::{MonitorImpl, SharedMonitor};
use monmon::condition_variables::FutexCondition;
use monmon::dbg::accumulators::UnsafeSharedAccumulator;
use monmon::dbg::sync_macro::SyncedStruct;
use monmon::debug::producer_consumer::UnsafeSharedBuffer;
use monmon::futex_monitor::FutexMonitor;
use monmon::monitor_kind::{release_choice, Release};
use monmon::semaphore::BinarySemaphore;
use monmon::semaphore_monitor::SemaphoreMonitor;

#[test]
fn binary_semaphore_counts_units() {
    let s = BinarySemaphore::new(1);
    assert!(s.P_try());
    assert!(!s.P_try());
    s.V_signal();
    assert!(s.P_try());
    // binary: two signals still make one unit
    s.V_signal();
    s.V_signal();
    assert!(s.P_try());
    assert!(!s.P_try());
}

#[test]
fn release_rule_prefers_signalers() {
    assert_eq!(release_choice(0), Release::FreeMonitor);
    assert_eq!(release_choice(3), Release::ResumeSignaler);
}

#[test]
fn semaphore_monitor_single_thread() {
    let m = SemaphoreMonitor::new(2);
    assert!(m.try_enter());
    assert!(!m.try_enter());
    // nobody waits: signalling hands nothing over
    assert!(!m.signal_hand_over(1));
    m.leave();
    assert!(m.try_enter());
    m.leave();
}

#[test]
fn futex_monitor_single_thread() {
    let m = FutexMonitor::new(1);
    assert!(m.try_enter());
    m.signal(0);
    m.notify(0);
    assert_eq!(m.broadcast(0), 0);
    m.leave();
    assert!(m.try_enter());
    m.leave();
}

#[test]
fn futex_condition_without_waiters() {
    let c = FutexCondition::default();
    assert_eq!(c.waiting_count(), 0);
    assert!(!c.signal());
    assert_eq!(c.broadcast(), 0);
}

#[test]
fn counters_update_sequentially() {
    let a = UnsafeSharedAccumulator::new();
    for _ in 0..5 {
        a.increment(&|| {});
    }
    assert_eq!(a.get(), 5);

    let b = UnsafeSharedBuffer::new();
    b.produce(&|| {});
    b.produce(&|| {});
    b.consume(&|| {});
    assert_eq!(b.get(), 1);
    b.consume(&|| {});
    b.consume(&|| {});
    assert_eq!(b.get(), -1);

    let s = SyncedStruct::new();
    assert!(s.monitor().try_enter());
    s.increment_locked(&|| {});
    s.monitor().leave();
    assert_eq!(s.get_counter(), 1);
}

#[test]
fn shared_monitor_holds_the_chosen_kind() {
    let s = SharedMonitor::new(MonitorKind::Semaphore, 2);
    match s.implementation() {
        MonitorImpl::Semaphore(m) => assert_eq!(m.condition_count(), 2),
        MonitorImpl::Futex(_) => panic!("expected a semaphore monitor"),
    }
    let f = SharedMonitor::new(MonitorKind::Futex, 3);
    match f.implementation() {
        MonitorImpl::Futex(m) => {
            assert_eq!(m.condition_count(), 3);
            assert!(m.try_enter());
            m.leave();
        }
        MonitorImpl::Semaphore(_) => panic!("expected a futex monitor"),
    }
}
