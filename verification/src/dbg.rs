//! Configuration and shared state of the race demonstrations: producer threads
//! that update shared counters with and without synchronisation.

pub mod accumulators;
pub mod config;
pub mod sync_macro;
