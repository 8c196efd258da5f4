//! The monitor implementations and their building blocks, in one place.

pub use crate::condition_variables::{Condition, FutexCondition};
pub use crate::futex_monitor::FutexMonitor;
pub use crate::monitor_kind::MonitorKind;
pub use crate::monitor_state::MonitorState;
pub use crate::semaphore::BinarySemaphore;
pub use crate::semaphore_monitor::SemaphoreMonitor;
