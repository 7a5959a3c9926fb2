use std::time::Duration;
use std::time::Instant;

use log_limit::LogAction;
use log_limit::RateLimiter;

const MS: u128 = 1_000_000;

/// Writes a line at `level` to `target` through the `log` crate.
fn write_line(level: log::Level, target: &str) {
    log::logger().log(&log::Record::builder().level(level).target(target).build());
}

/// Counts of what a run of calls wrote: lines, notices, and the dropped
/// calls that the notices reported.
#[derive(Default)]
struct Tally {
    lines: usize,
    notices: usize,
    reported: Vec<usize>,
}

impl Tally {
    fn take(&mut self, action: LogAction) {
        match action {
            LogAction::Suppress => {}
            LogAction::Emit => self.lines += 1,
            LogAction::EmitThenThrottle { .. } => {
                self.lines += 1;
                self.notices += 1;
            }
            LogAction::ResumeThenEmit { ignored, .. } => {
                self.notices += 1;
                self.reported.push(ignored);
                self.lines += 1;
            }
        }
    }
}

#[test]
fn thread_local_logger_limits_correctly() {
    // One call every 11 ms, at most 2 lines per 50 ms.
    let mut limiter = RateLimiter::new();
    let mut tally = Tally::default();
    for i in 0..11u128 {
        tally.take(limiter.log_maybe_at(i * 11 * MS, 50 * MS, 2));
        // 00: Log
        // 11: Log (and warn of omission)
        // 22: Omit
        // 33: Omit
        // 44: Omit
        // 55: Log (and warn: missed 3)
        // 66: Log (and warn of omission)
        // 77: Omit
        // 88: Omit
        // 99: Omit
        // 110: Log (and warn: missed 3)
    }
    assert_eq!(tally.notices, 4);
    assert_eq!(tally.lines, 5);
    assert_eq!(tally.reported.len(), 2);
    assert_eq!(3, tally.reported[0]);
    assert_eq!(3, tally.reported[1]);
}

const ACCEPTABLE_DROP_FACTOR: f64 = 0.99;
const TEST_TIME_MS: usize = 500;
const TEST_PERIOD_MS: usize = 1;
const MAX_LOGS_PER_PERIOD: usize = 500;
const MAX_EXPECTED_WARNING_LOGS_PER_PERIOD: usize = 2;

#[test]
fn thread_local_spamming_does_not_work() {
    let mut limiter = RateLimiter::new();
    let mut tally = Tally::default();
    let start = Instant::now();
    while Instant::now().duration_since(start) < Duration::from_millis(TEST_TIME_MS as u64) {
        let action = limiter.log_maybe(
            Duration::from_millis(TEST_PERIOD_MS as u64).as_nanos(),
            MAX_LOGS_PER_PERIOD,
        );
        if action.emits() {
            write_line(log::Level::Info, "Logging on repeat");
        }
        tally.take(action);
    }
    let warning_logs_count = tally.notices;
    let info_logs_count = tally.lines;

    // Ensure we don't overstep the limit on average
    assert!(warning_logs_count <= TEST_TIME_MS / TEST_PERIOD_MS * MAX_EXPECTED_WARNING_LOGS_PER_PERIOD);
    assert!(info_logs_count <= MAX_LOGS_PER_PERIOD * TEST_TIME_MS);

    assert!(
        warning_logs_count as f64
            > ((TEST_TIME_MS / TEST_PERIOD_MS * MAX_EXPECTED_WARNING_LOGS_PER_PERIOD) as f64
                * ACCEPTABLE_DROP_FACTOR)
    );
    assert!(
        info_logs_count as f64 > ((MAX_LOGS_PER_PERIOD * TEST_TIME_MS) as f64 * ACCEPTABLE_DROP_FACTOR)
    );
}

/// One call site at each level, each with a limiter of its own, writing at
/// most 1 line per millisecond to `target`.
fn one_call_per_level(target: &str) {
    for level in [
        log::Level::Error,
        log::Level::Warn,
        log::Level::Info,
        log::Level::Debug,
        log::Level::Trace,
    ] {
        let mut limiter = RateLimiter::new();
        let action = limiter.log_maybe(Duration::from_millis(1).as_nanos(), 1);
        assert!(matches!(action, LogAction::EmitThenThrottle { .. } | LogAction::Emit));
        if action.emits() {
            write_line(level, target);
        }
    }
}

#[test]
fn all_thread_variants_compile() {
    one_call_per_level("");
}

#[test]
fn target_parameter_works() {
    one_call_per_level("custom_target");
}

#[test]
fn max_per_time_longer_than_period_overflow() {
    let mut limiter = RateLimiter::new();
    let period = 10 * MS;
    // Trigger threshold
    assert_eq!(limiter.log_maybe_at(0, period, 3), LogAction::Emit);
    assert_eq!(limiter.log_maybe_at(0, period, 3), LogAction::Emit);
    assert_eq!(
        limiter.log_maybe_at(0, period, 3),
        LogAction::EmitThenThrottle { remaining_nanos: 10 * MS }
    );
    assert_eq!(limiter.log_maybe_at(0, period, 3), LogAction::Suppress);

    // Reset after period was reached and record timestamp
    assert_eq!(
        limiter.log_maybe_at(11 * MS, period, 3),
        LogAction::ResumeThenEmit { ignored: 1, elapsed_nanos: 11 * MS }
    );

    // Get to just one log before hitting the threshold, with the time since
    // the period began longer than the period
    assert_eq!(limiter.log_maybe_at(22 * MS, period, 3), LogAction::Emit);
    assert_eq!(limiter.log_maybe_at(22 * MS, period, 3), LogAction::Emit);
    assert_eq!(limiter.count(), 3);
}

#[test]
fn new_limiter_starts_empty() {
    let limiter = RateLimiter::new();
    assert_eq!(limiter.count(), 0);
    let limiter = RateLimiter::default();
    assert_eq!(limiter.count(), 0);
}

#[test]
fn threshold_notice_names_the_rest_of_the_period() {
    let mut limiter = RateLimiter::new();
    assert_eq!(limiter.log_maybe_at(5, 100, 2), LogAction::Emit);
    assert_eq!(
        limiter.log_maybe_at(30, 100, 2),
        LogAction::EmitThenThrottle { remaining_nanos: 70 }
    );
    assert_eq!(limiter.count(), 2);
}

#[test]
fn period_end_without_notice_writes_plainly() {
    // The threshold is reached only after the period is over: no notice is
    // given, and the new period starts without a report.
    let mut limiter = RateLimiter::new();
    assert_eq!(limiter.log_maybe_at(200, 100, 1), LogAction::Emit);
    assert_eq!(limiter.log_maybe_at(250, 100, 1), LogAction::Emit);
    assert_eq!(limiter.count(), 1);
}

#[test]
fn zero_threshold_writes_once_per_period() {
    let mut limiter = RateLimiter::new();
    assert_eq!(limiter.log_maybe_at(0, 100, 0), LogAction::Suppress);
    assert_eq!(
        limiter.log_maybe_at(101, 100, 0),
        LogAction::ResumeThenEmit { ignored: 1, elapsed_nanos: 101 }
    );
    assert_eq!(limiter.log_maybe_at(150, 100, 0), LogAction::Suppress);
    assert!(limiter.log_maybe_at(202, 100, 0).emits());
}

#[test]
fn drops_after_a_restart_are_reported_with_threshold_one() {
    // Threshold 1, period 10 ms: the call at 21 ms is dropped, and the call
    // at 40 ms reports it.
    let mut limiter = RateLimiter::new();
    assert_eq!(limiter.log_maybe_at(0, 10 * MS, 1), LogAction::EmitThenThrottle { remaining_nanos: 10 * MS });
    assert_eq!(limiter.log_maybe_at(20 * MS, 10 * MS, 1), LogAction::ResumeThenEmit { ignored: 0, elapsed_nanos: 20 * MS });
    assert_eq!(limiter.log_maybe_at(21 * MS, 10 * MS, 1), LogAction::Suppress);
    assert_eq!(
        limiter.log_maybe_at(40 * MS, 10 * MS, 1),
        LogAction::ResumeThenEmit { ignored: 1, elapsed_nanos: 20 * MS }
    );
    assert_eq!(limiter.count(), 1);
}

#[test]
fn overflow_check_allows_a_restart() {
    let limiter = RateLimiter::new();
    assert!(limiter.counts_without_overflow(0, 10));
    let later = limiter.now();
    assert!(limiter.counts_without_overflow(later, 10));
}

#[test]
fn clock_going_back_counts_as_no_time() {
    let mut limiter = RateLimiter::new();
    assert_eq!(limiter.log_maybe_at(500, 100, 1), LogAction::Emit);
    assert_eq!(
        limiter.log_maybe_at(700, 100, 1),
        LogAction::Emit
    );
    // The period began at 700; a reading before it is no time at all.
    assert_eq!(limiter.log_maybe_at(650, 100, 1), LogAction::Suppress);
}

#[test]
fn clock_reading_call_counts() {
    let mut limiter = RateLimiter::new();
    let period = Duration::from_secs(3600).as_nanos();
    assert_eq!(limiter.log_maybe(period, 2), LogAction::Emit);
    assert!(matches!(limiter.log_maybe(period, 2), LogAction::EmitThenThrottle { .. }));
    assert_eq!(limiter.log_maybe(period, 2), LogAction::Suppress);
    assert_eq!(limiter.count(), 3);
}
