//! The limiter that one thread owns.

use std::time::Instant;
use vstd::prelude::*;

use crate::action::LogAction;
use crate::time::{elapsed_since, elapsed_nanos, instant_now, nanos_since};

verus! {

/// The state of a [`RateLimiter`], as the rules of the limiter see it.
pub struct LimiterState {
    /// The calls counted in the current period.
    pub count: nat,
    /// The start of the current period, in nanoseconds since the limiter was created.
    pub timestamp: nat,
    /// Whether the threshold notice was given in the current period.
    pub logged_timeout: bool,
}

/// The state of a limiter that has just been created.
pub open spec fn fresh_state() -> LimiterState {
    LimiterState { count: 0, timestamp: 0, logged_timeout: false }
}

/// Whether a call at `now` starts a new period: the threshold has been
/// reached and more than `period` has passed since the current period began.
pub open spec fn starts_period(s: LimiterState, now: nat, period: nat, max: nat) -> bool {
    s.count >= max && elapsed_since(now, s.timestamp) > period
}

/// One call of the rate-limited line at `now`: the state after the call and
/// what is written.
///
/// While fewer than `max` calls were counted, the line is written; the call
/// that reaches `max` also gives the threshold notice, if the period is not
/// over yet. Past the threshold, the line is dropped until more than `period`
/// has passed since the period began; the first call after that starts a new
/// period, in which it is the first call, and writes the line. If calls were
/// dropped in the period that ends, or the threshold notice was given in it,
/// the call first reports how many calls past the threshold were dropped.
pub open spec fn step(s: LimiterState, now: nat, period: nat, max: nat) -> (LimiterState, LogAction) {
    let elapsed = elapsed_since(now, s.timestamp);
    if s.count < max {
        let count = s.count + 1;
        if count == max && elapsed <= period {
            (
                LimiterState { count, timestamp: s.timestamp, logged_timeout: true },
                LogAction::EmitThenThrottle { remaining_nanos: (period - elapsed) as u128 },
            )
        } else {
            (
                LimiterState { count, timestamp: s.timestamp, logged_timeout: s.logged_timeout },
                LogAction::Emit,
            )
        }
    } else if elapsed > period {
        (
            LimiterState { count: 1, timestamp: now, logged_timeout: false },
            if s.logged_timeout || s.count > max {
                LogAction::ResumeThenEmit {
                    ignored: (s.count - max) as usize,
                    elapsed_nanos: elapsed as u128,
                }
            } else {
                LogAction::Emit
            },
        )
    } else {
        (
            LimiterState { count: s.count + 1, timestamp: s.timestamp, logged_timeout: s.logged_timeout },
            LogAction::Suppress,
        )
    }
}

/// A rate limiter for one log line, owned by one thread.
pub struct RateLimiter {
    count: usize,
    timestamp: u128,
    logged_timeout: bool,
    origin: Instant,
}

impl View for RateLimiter {
    type V = LimiterState;

    closed spec fn view(&self) -> LimiterState {
        LimiterState {
            count: self.count as nat,
            timestamp: self.timestamp as nat,
            logged_timeout: self.logged_timeout,
        }
    }
}

impl RateLimiter {
    /// A limiter whose first period starts now, with no call counted.
    pub fn new() -> (r: RateLimiter)
        ensures
            r@ == fresh_state(),
    {
        RateLimiter { count: 0, timestamp: 0, logged_timeout: false, origin: instant_now() }
    }

    /// The calls counted in the current period.
    pub fn count(&self) -> (r: usize)
        ensures
            r == self@.count,
    {
        self.count
    }

    /// One call of the line at `now` (nanoseconds since the limiter was
    /// created): updates the limiter and says what to write.
    ///
    /// Counting the call must not overflow: the count may be at its largest
    /// only when the call starts a new period.
    pub fn log_maybe_at(&mut self, now: u128, period: u128, max_per_time: usize) -> (r: LogAction)
        requires
            old(self)@.count < usize::MAX || elapsed_since(now as nat, old(self)@.timestamp) > period,
        ensures
            (final(self)@, r) == step(old(self)@, now as nat, period as nat, max_per_time as nat),
    {
        let elapsed = elapsed_nanos(now, self.timestamp);
        if self.count < max_per_time {
            self.count = self.count + 1;
            if self.count == max_per_time && period >= elapsed {
                self.logged_timeout = true;
                LogAction::EmitThenThrottle { remaining_nanos: period - elapsed }
            } else {
                LogAction::Emit
            }
        } else if elapsed > period {
            let action = if self.logged_timeout || self.count > max_per_time {
                LogAction::ResumeThenEmit { ignored: self.count - max_per_time, elapsed_nanos: elapsed }
            } else {
                LogAction::Emit
            };
            self.logged_timeout = false;
            self.count = 1;
            self.timestamp = now;
            action
        } else {
            self.count = self.count + 1;
            LogAction::Suppress
        }
    }

    /// The current reading of the clock, in nanoseconds since the limiter was
    /// created: the reading that [`RateLimiter::log_maybe`] passes to
    /// [`RateLimiter::log_maybe_at`]. It depends on the time at which it is
    /// read, so nothing is stated of its value.
    pub fn now(&self) -> u128 {
        nanos_since(&self.origin)
    }

    /// Whether a call at `now` can be counted: the count is below its
    /// largest value, or the call starts a new period and restarts it.
    pub fn counts_without_overflow(&self, now: u128, period: u128) -> (r: bool)
        ensures
            r == (self@.count < usize::MAX || elapsed_since(now as nat, self@.timestamp) > period),
    {
        self.count < usize::MAX || elapsed_nanos(now, self.timestamp) > period
    }

    /// One call of the line now: reads the clock, updates the limiter and
    /// says what to write. What happens is [`step`] at the time read.
    pub fn log_maybe(&mut self, period: u128, max_per_time: usize) -> (r: LogAction)
        requires
            old(self)@.count < usize::MAX,
        ensures
            exists|now: u128|
                #![trigger step(old(self)@, now as nat, period as nat, max_per_time as nat)]
                (final(self)@, r) == step(old(self)@, now as nat, period as nat, max_per_time as nat),
    {
        let now = self.now();
        self.log_maybe_at(now, period, max_per_time)
    }
}

impl Default for RateLimiter {
    /// The same as [`RateLimiter::new`].
    fn default() -> (r: RateLimiter)
        ensures
            r@ == fresh_state(),
    {
        RateLimiter::new()
    }
}

} // verus!
