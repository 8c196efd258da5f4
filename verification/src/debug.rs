//! The earlier race demonstration: a usize-only race report and a shared buffer
//! that producers increment and consumers decrement.

pub mod config;
pub mod producer_consumer;
