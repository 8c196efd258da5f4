//! Hoare-style monitors: the decision logic of a monitor server that is driven
//! by messages, the wire format of those messages, and monitors built from
//! atomics, semaphores and futexes.

pub mod condition_variables;
pub mod futex_monitor;
pub mod message;
pub mod monitor_kind;
pub mod monitor_state;
pub mod monitors;
pub mod semaphore;
pub mod semaphore_monitor;
pub mod shared_monitor;
pub mod synchronised;
pub mod wire;

pub mod dbg;
pub mod debug;

mod decimal;
mod futex;
