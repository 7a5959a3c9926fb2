//! Rate limiting for log lines.
//!
//! A log line that is called too often is dropped once it has been written
//! `max_per_time` times in the current period; when the period is over, the
//! line is written again, together with a notice of how many lines were
//! dropped. Two limiters decide this: [`RateLimiter`], owned by one thread,
//! and [`SynchronisedRateLimiter`], shared by all threads of a process.
//!
//! Time is measured in nanoseconds since the limiter was created. Each call
//! returns a [`LogAction`] that tells the caller what to write.

pub mod action;
pub mod time;
pub mod lock;
pub mod local;
pub mod sync;
pub mod laws;

pub use action::LogAction;
pub use local::{LimiterState, RateLimiter};
pub use sync::{SharedValues, SynchronisedRateLimiter};

