use std::time::Duration;

use log_limit::RateLimiter;
use log_limit::SynchronisedRateLimiter;

/// Whether a line at `level` would be written by the `log` crate: the level
/// is within the compiled-in and the current maximum, and the logger takes it.
fn enabled(level: log::Level) -> bool {
    level <= log::STATIC_MAX_LEVEL
        && level <= log::max_level()
        && log::logger().enabled(&log::Metadata::builder().level(level).build())
}

#[test]
fn thread_local_suppressed_levels_are_ignored() {
    // Restrict logging to Warn and above
    log::set_max_level(log::LevelFilter::Warn);

    let mut limiter = RateLimiter::new();
    let mut captured_logs = 0;
    for _ in 0..10 {
        // "This debug message is suppressed"
        if enabled(log::Level::Debug) {
            if limiter.log_maybe(Duration::from_secs(1).as_nanos(), 2).emits() {
                captured_logs += 1;
            }
        }
    }
    assert_eq!(captured_logs, 0,);
    assert_eq!(limiter.count(), 0);
}

#[test]
fn global_suppressed_levels_are_ignored() {
    // Restrict logging to Warn and above
    log::set_max_level(log::LevelFilter::Warn);

    let limiter = SynchronisedRateLimiter::new();
    let mut captured_logs = 0;
    for _ in 0..10 {
        // "This global debug message is suppressed"
        if enabled(log::Level::Debug) {
            if limiter.log_maybe(Duration::from_secs(1).as_nanos(), 2).emits() {
                captured_logs += 1;
            }
        }
    }
    assert_eq!(captured_logs, 0,);
}
