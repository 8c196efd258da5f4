use vstd::prelude::*;

verus! {

/// Which implementation of the monitor abstraction to use.
#[derive(Debug, Clone, Copy, PartialEq, Eq, Structural)]
pub enum MonitorKind {
    Semaphore,
    Futex,
    InterProcessCommunication,
}

/// Whom a thread that gives up the monitor lets in.
#[derive(Debug, Clone, Copy, PartialEq, Eq, Structural)]
pub enum Release {
    /// A signaler parked after a Hoare hand-off resumes first.
    ResumeSignaler,
    /// Nobody is parked after a signal: the monitor's lock is released.
    FreeMonitor,
}

/// The release rule that every monitor here follows on leave and on wait: signalers
/// waiting to resume go before new entrants.
pub open spec fn release_rule(signalers_waiting: nat) -> Release {
    if signalers_waiting > 0 {
        Release::ResumeSignaler
    } else {
        Release::FreeMonitor
    }
}

/// Decides whom to let in when giving up the monitor, from the number of signalers
/// waiting to resume.
pub fn release_choice(signalers_waiting: u64) -> (r: Release)
    ensures
        r == release_rule(signalers_waiting as nat),
        (r == Release::ResumeSignaler) == (signalers_waiting >= 1),
        (r == Release::FreeMonitor) == (signalers_waiting == 0),
{
    if signalers_waiting > 0 {
        Release::ResumeSignaler
    } else {
        Release::FreeMonitor
    }
}

/// Every parked signaler counts: with one or more signalers waiting to resume, the
/// monitor goes to a signaler; only with none is the lock freed for new entrants.
pub proof fn law_release_resumes_any_parked_signaler(signalers_waiting: nat)
    ensures
        (release_rule(signalers_waiting) == Release::ResumeSignaler) == (signalers_waiting >= 1),
        (release_rule(signalers_waiting) == Release::FreeMonitor) == (signalers_waiting == 0),
{
}

/// Decides whether a Hoare signal hands the monitor over, from the number of threads
/// seen waiting on the condition: a single waiter is enough, and with none the
/// signaler simply continues.
pub fn hand_over_needed(waiting: u64) -> (r: bool)
    ensures
        r == (waiting >= 1),
{
    waiting > 0
}

} // verus!
