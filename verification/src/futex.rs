//! The three futex operations of the `atomic_wait` crate.
use std::sync::atomic::AtomicU32;
use vstd::prelude::*;

verus! {

/// `atomic_wait::wait`: if `atomic` still holds `value`, blocks until a wake on it;
/// it may also return spuriously. Nothing is claimed of it.
#[verifier::external_body]
pub(crate) fn futex_wait(atomic: &AtomicU32, value: u32) {
    atomic_wait::wait(atomic, value)
}

/// `atomic_wait::wake_one`: wakes one thread blocked on `atomic`, if any.
/// Nothing is claimed of it.
#[verifier::external_body]
pub(crate) fn futex_wake_one(atomic: &AtomicU32) {
    atomic_wait::wake_one(atomic)
}

/// `atomic_wait::wake_all`: wakes every thread blocked on `atomic`.
/// Nothing is claimed of it.
#[verifier::external_body]
pub(crate) fn futex_wake_all(atomic: &AtomicU32) {
    atomic_wait::wake_all(atomic)
}

} // verus!
