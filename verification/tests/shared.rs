use std::time::Duration;
use std::time::Instant;

use log_limit::LogAction;
use log_limit::SharedValues;
use log_limit::SynchronisedRateLimiter;

const MS: u128 = 1_000_000;

/// Writes a line at `level` to `target` through the `log` crate.
fn write_line(level: log::Level, target: &str) {
    log::logger().log(&log::Record::builder().level(level).target(target).build());
}

/// Counts of what a run of calls wrote: lines, notices, and the dropped
/// calls that the notices reported.
#[derive(Default)]
struct Tally {
    lines: usize,
    notices: usize,
    reported: Vec<usize>,
}

impl Tally {
    fn take(&mut self, action: LogAction) {
        match action {
            LogAction::Suppress => {}
            LogAction::Emit => self.lines += 1,
            LogAction::EmitThenThrottle { .. } => {
                self.lines += 1;
                self.notices += 1;
            }
            LogAction::ResumeThenEmit { ignored, .. } => {
                self.notices += 1;
                self.reported.push(ignored);
                self.lines += 1;
            }
        }
    }
}

#[test]
fn shared_logger_limits_correctly() {
    // One call every 11 ms, at most 2 lines per 50 ms.
    let limiter = SynchronisedRateLimiter::new();
    let mut tally = Tally::default();
    for i in 0..11u128 {
        tally.take(limiter.log_maybe_at(i * 11 * MS, 50 * MS, 2));
    }
    assert_eq!(tally.notices, 4);
    assert_eq!(tally.lines, 5);
    assert_eq!(tally.reported.len(), 2);
    assert_eq!(3, tally.reported[0]);
    assert_eq!(3, tally.reported[1]);
}

const ACCEPTABLE_DROP_FACTOR: f64 = 0.99;
const TEST_TIME_MS: usize = 500;
const TEST_PERIOD_MS: usize = 1;
const MAX_LOGS_PER_PERIOD: usize = 500;
const MAX_EXPECTED_WARNING_LOGS_PER_PERIOD: usize = 2;

#[test]
fn sync_spamming_does_not_work() {
    let limiter = SynchronisedRateLimiter::new();
    let mut tally = Tally::default();
    let start = Instant::now();
    while Instant::now().duration_since(start) < Duration::from_millis(TEST_TIME_MS as u64) {
        let action = limiter.log_maybe(
            Duration::from_millis(TEST_PERIOD_MS as u64).as_nanos(),
            MAX_LOGS_PER_PERIOD,
        );
        if action.emits() {
            write_line(log::Level::Info, "Logging on repeat");
        }
        tally.take(action);
    }
    let warning_logs_count = tally.notices;
    let info_logs_count = tally.lines;

    assert!(warning_logs_count <= TEST_TIME_MS / TEST_PERIOD_MS * MAX_EXPECTED_WARNING_LOGS_PER_PERIOD);
    assert!(info_logs_count <= MAX_LOGS_PER_PERIOD * TEST_TIME_MS);

    assert!(
        warning_logs_count as f64
            > ((TEST_TIME_MS / TEST_PERIOD_MS * MAX_EXPECTED_WARNING_LOGS_PER_PERIOD) as f64
                * ACCEPTABLE_DROP_FACTOR)
    );
    assert!(
        info_logs_count as f64 > ((MAX_LOGS_PER_PERIOD * TEST_TIME_MS) as f64 * ACCEPTABLE_DROP_FACTOR)
    );
}

/// One call site at each level, each with a limiter of its own, writing at
/// most 1 line per millisecond to `target`.
fn one_call_per_level(target: &str) {
    for level in [
        log::Level::Error,
        log::Level::Warn,
        log::Level::Info,
        log::Level::Debug,
        log::Level::Trace,
    ] {
        let limiter = SynchronisedRateLimiter::new();
        let action = limiter.log_maybe(Duration::from_millis(1).as_nanos(), 1);
        assert!(matches!(action, LogAction::EmitThenThrottle { .. }));
        if action.emits() {
            write_line(level, target);
        }
    }
}

#[test]
fn all_synchronised_variants_compile() {
    one_call_per_level("");
}

#[test]
fn shared_target_parameter_works() {
    one_call_per_level("custom_target");
}

#[test]
fn admission_writes_up_to_the_threshold() {
    assert_eq!(SynchronisedRateLimiter::admission_of(1, 3, 40), Some(LogAction::Emit));
    assert_eq!(
        SynchronisedRateLimiter::admission_of(3, 3, 40),
        Some(LogAction::EmitThenThrottle { remaining_nanos: 40 })
    );
    assert_eq!(SynchronisedRateLimiter::admission_of(4, 3, 40), None);
}

#[test]
fn reopening_reports_dropped_calls() {
    assert_eq!(
        SynchronisedRateLimiter::reopen(55, 6, 2, 50),
        LogAction::ResumeThenEmit { ignored: 3, elapsed_nanos: 55 }
    );
    assert_eq!(SynchronisedRateLimiter::reopen(50, 6, 2, 50), LogAction::Suppress);
    // Another thread reset the counter meanwhile: nothing is reported dropped.
    assert_eq!(
        SynchronisedRateLimiter::reopen(60, 1, 2, 50),
        LogAction::ResumeThenEmit { ignored: 0, elapsed_nanos: 60 }
    );
}

#[test]
fn new_shared_limiter_starts_empty() {
    assert_eq!(SynchronisedRateLimiter::initial_values(), SharedValues { count: 0, start: 0 });
}

#[test]
fn restart_begins_the_period_at_the_call() {
    assert_eq!(
        SynchronisedRateLimiter::restart_of(120, 60, 50),
        Some(SharedValues { count: 1, start: 120 })
    );
    assert_eq!(SynchronisedRateLimiter::restart_of(110, 60, 50), None);
    // A start that another thread moved past the call's own reading is no time.
    assert_eq!(SynchronisedRateLimiter::restart_of(10, 60, 5), None);
}

#[test]
fn shared_limiter_writes_threshold_again_after_restart() {
    // After a restart the counter starts at one, so the new period writes
    // `max` lines again before dropping.
    let limiter = SynchronisedRateLimiter::new();
    let mut writes = Vec::new();
    for t in [0u128, 1, 2, 3, 100, 101, 102, 103] {
        writes.push(limiter.log_maybe_at(t, 50, 3).emits());
    }
    assert_eq!(writes, vec![true, true, true, false, true, true, true, false]);
}
