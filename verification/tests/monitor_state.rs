use monmon::message::MonMessage::{MonBroadcast, MonEnter, MonLeave, MonRegister, MonSignal, MonWait};
use monmon::monitor_state::MonitorState;

fn queue(q: &std::collections::VecDeque<u32>) -> Vec<u32> {
    q.iter().copied().collect()
}

#[test]
fn new_state_is_free_with_empty_queues() {
    let s = MonitorState::new(3);
    assert_eq!(s.mutex_holder, None);
    assert!(s.enter_queue.is_empty());
    assert!(s.next_queue.is_empty());
    assert_eq!(s.condvar_queues.len(), 3);
    assert!(s.condvar_queues.iter().all(|q| q.is_empty()));
}

#[test]
fn register_is_acknowledged() {
    let mut s = MonitorState::new(0);
    assert_eq!(s.process(4, MonRegister), vec![4]);
    assert_eq!(s.mutex_holder, None);
}

#[test]
fn enter_and_leave_in_fifo_order() {
    let mut s = MonitorState::new(0);
    assert_eq!(s.process(1, MonEnter), vec![1]);
    assert_eq!(s.process(2, MonEnter), Vec::<u32>::new());
    assert_eq!(s.process(3, MonEnter), Vec::<u32>::new());
    assert_eq!(queue(&s.enter_queue), vec![2, 3]);
    // the leaver's successor is woken first, then the leaver is acknowledged
    assert_eq!(s.process(1, MonLeave), vec![2, 1]);
    assert_eq!(s.mutex_holder, Some(2));
    assert_eq!(s.process(2, MonLeave), vec![3, 2]);
    assert_eq!(s.process(3, MonLeave), vec![3]);
    assert_eq!(s.mutex_holder, None);
}

#[test]
fn signal_hands_monitor_to_waiter_and_parks_signaler() {
    let mut s = MonitorState::new(2);
    s.process(1, MonEnter);
    s.process(2, MonEnter);
    // 1 waits on condition 1: the monitor goes to 2
    assert_eq!(s.process(1, MonWait(1)), vec![2]);
    assert_eq!(s.mutex_holder, Some(2));
    assert_eq!(queue(&s.condvar_queues[1]), vec![1]);
    // 2 signals: 1 gets the monitor at once, 2 parks in the next queue
    assert_eq!(s.process(2, MonSignal(1)), vec![1]);
    assert_eq!(s.mutex_holder, Some(1));
    assert_eq!(queue(&s.next_queue), vec![2]);
    assert!(s.condvar_queues[1].is_empty());
}

#[test]
fn signal_without_waiters_keeps_the_monitor() {
    let mut s = MonitorState::new(1);
    s.process(1, MonEnter);
    assert_eq!(s.process(1, MonSignal(0)), vec![1]);
    assert_eq!(s.mutex_holder, Some(1));
    assert!(s.next_queue.is_empty());
}

#[test]
fn release_prefers_parked_signalers_over_entrants() {
    let mut s = MonitorState::new(1);
    s.process(1, MonEnter);
    s.process(1, MonWait(0)); // monitor free again
    s.process(2, MonEnter);
    s.process(3, MonEnter); // 3 waits to enter
    assert_eq!(s.process(2, MonSignal(0)), vec![1]); // 2 parks
    assert_eq!(queue(&s.enter_queue), vec![3]);
    // 1 leaves: the parked signaler 2 resumes before the entrant 3
    assert_eq!(s.process(1, MonLeave), vec![2, 1]);
    assert_eq!(s.mutex_holder, Some(2));
    assert_eq!(queue(&s.enter_queue), vec![3]);
}

#[test]
fn broadcast_moves_all_waiters_to_enter_queue() {
    let mut s = MonitorState::new(1);
    for c in [1u32, 2, 3] {
        s.process(c, MonEnter);
    }
    s.process(1, MonWait(0));
    s.process(2, MonWait(0));
    assert_eq!(s.mutex_holder, Some(3));
    s.process(4, MonEnter);
    assert_eq!(s.process(3, MonBroadcast(0)), vec![3]);
    assert_eq!(s.mutex_holder, Some(3));
    assert_eq!(queue(&s.enter_queue), vec![4, 1, 2]);
    assert!(s.condvar_queues[0].is_empty());
}

#[test]
fn wait_with_nobody_queued_frees_the_monitor() {
    let mut s = MonitorState::new(1);
    s.process(5, MonEnter);
    assert_eq!(s.process(5, MonWait(0)), Vec::<u32>::new());
    assert_eq!(s.mutex_holder, None);
}

#[test]
fn registration_of_a_parked_client_changes_nothing() {
    let mut s = MonitorState::new(0);
    s.process(1, MonEnter);
    s.process(2, MonEnter);
    assert_eq!(s.process(2, MonRegister), vec![2]);
    assert_eq!(s.mutex_holder, Some(1));
    assert_eq!(queue(&s.enter_queue), vec![2]);
}
