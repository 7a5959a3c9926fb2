//! The limiter that all threads of a process share.

use std::sync::atomic::AtomicUsize;
use std::sync::Mutex;
use std::sync::MutexGuard;
use std::time::Instant;
use vstd::prelude::*;

use crate::action::LogAction;
use crate::lock::{acquire, new_lock, read_guarded, write_guarded};
use crate::time::{elapsed_between, elapsed_nanos, elapsed_since, instant_now, nanos_since};

verus! {

/// What a call that has counted itself as call number `count` of the current
/// period does before it looks at the clock: while `count` is at most `max`,
/// the line is written, and the call numbered `max` also gives the threshold
/// notice, which names the whole period. Past `max` there is no answer yet.
pub open spec fn admission(count: nat, max: nat, period: nat) -> Option<LogAction> {
    if count <= max {
        if count == max {
            Some(LogAction::EmitThenThrottle { remaining_nanos: period as u128 })
        } else {
            Some(LogAction::Emit)
        }
    } else {
        None
    }
}

/// The number of dropped calls reported when a period ends: the count that
/// the counter held, less the `max` calls that were written and less the
/// call that ends the period; zero where another thread has already reset
/// the counter below that.
pub open spec fn ignored_calls(swapped: nat, max: nat) -> nat {
    if swapped >= max + 1 {
        (swapped - max - 1) as nat
    } else {
        0
    }
}

/// What a call past the threshold does once it holds the lock, `elapsed`
/// after the period began: if more than `period` has passed, it reports the
/// dropped calls and writes the line (the counter held `swapped` when it was
/// reset); otherwise the line is dropped.
pub open spec fn reopening(elapsed: nat, swapped: nat, max: nat, period: nat) -> LogAction {
    if elapsed > period {
        LogAction::ResumeThenEmit {
            ignored: ignored_calls(swapped, max) as usize,
            elapsed_nanos: elapsed as u128,
        }
    } else {
        LogAction::Suppress
    }
}

/// The outcome of one call of the shared limiter, given what the call found
/// in the shared state: its own count, the time since the period began, and
/// what the counter held when it was reset.
pub open spec fn shared_outcome(count: nat, elapsed: nat, swapped: nat, max: nat, period: nat) -> LogAction {
    match admission(count, max, period) {
        Some(a) => a,
        None => reopening(elapsed, swapped, max, period),
    }
}

/// [`shared_outcome`] on the machine integers that the call reads.
pub open spec fn shared_outcome_at(count: usize, elapsed: nat, swapped: usize, max: usize, period: u128) -> LogAction {
    shared_outcome(count as nat, elapsed, swapped as nat, max as nat, period as nat)
}

/// The shared state of a [`SynchronisedRateLimiter`]: the counter and the
/// start of the current period.
pub struct SharedState {
    /// The calls counted in the current period.
    pub count: nat,
    /// The start of the current period, in nanoseconds since the limiter was created.
    pub timestamp: nat,
}

/// The shared state of a limiter that has just been created: no call
/// counted, and the first period starting at its creation.
pub open spec fn fresh_shared() -> SharedState {
    SharedState { count: 0, timestamp: 0 }
}

/// What a call past the threshold sets the shared state to, at `now`, when
/// the period began at `since`: if more than `period` has passed, a new
/// period that begins at `now` with the call itself counted; otherwise
/// nothing.
pub open spec fn restart_plan(now: nat, since: nat, period: nat) -> Option<SharedState> {
    if elapsed_since(now, since) > period {
        Some(SharedState { count: 1, timestamp: now })
    } else {
        None
    }
}

/// One call of the shared limiter at `now` when no other thread calls it
/// meanwhile: the call counts itself, and if it is past the threshold it
/// sets the shared state as [`restart_plan`] says.
pub open spec fn shared_step(s: SharedState, now: nat, period: nat, max: nat) -> (SharedState, LogAction) {
    let count = s.count + 1;
    let elapsed = elapsed_since(now, s.timestamp);
    match admission(count, max, period) {
        Some(a) => (SharedState { count, timestamp: s.timestamp }, a),
        None => match restart_plan(now, s.timestamp, period) {
            Some(next) => (next, reopening(elapsed, count, max, period)),
            None => (SharedState { count, timestamp: s.timestamp }, LogAction::Suppress),
        },
    }
}

/// Values that the shared state is set to: the counter, and the start of
/// the current period in nanoseconds since the limiter was created.
#[derive(Debug, Clone, Copy, PartialEq, Eq, Structural)]
pub struct SharedValues {
    /// The value of the counter.
    pub count: usize,
    /// The start of the period.
    pub start: u128,
}

impl View for SharedValues {
    type V = SharedState;

    open spec fn view(&self) -> SharedState {
        SharedState { count: self.count as nat, timestamp: self.start as nat }
    }
}

/// What a call past the threshold sets the shared state to, as values.
pub open spec fn restart_values(now: u128, since: u128, period: u128) -> Option<SharedValues> {
    if elapsed_between(now, since) > period {
        Some(SharedValues { count: 1, start: now })
    } else {
        None
    }
}

/// A call made while no other thread calls the limiter finds its own count
/// one above the counter, the period start as stored, and, at a restart, its
/// own count in the counter; its outcome is then the one that
/// [`SynchronisedRateLimiter::log_maybe_at`] promises for those readings.
pub proof fn lemma_lone_call_outcome(s: SharedState, now: nat, period: nat, max: nat)
    ensures
        shared_step(s, now, period, max).1 == shared_outcome(
            s.count + 1,
            elapsed_since(now, s.timestamp),
            s.count + 1,
            max,
            period,
        ),
{
}

/// A rate limiter for one log line, shared by all threads of the process.
pub struct SynchronisedRateLimiter {
    count: AtomicUsize,
    timestamp: Mutex<u128>,
    origin: Instant,
}

/// Counts one more call: the counter's value before the call. Other threads
/// count too, so nothing is known of the value.
fn count_call(counter: &AtomicUsize) -> usize {
    counter.fetch_add(1, std::sync::atomic::Ordering::Relaxed)
}

/// Sets the counter to `value`: the counter's value before. Other threads
/// count too, so nothing is known of the value.
fn restart_count(counter: &AtomicUsize, value: usize) -> usize {
    counter.swap(value, std::sync::atomic::Ordering::Relaxed)
}

/// A call past the threshold, holding the lock, that found the period
/// started at `since`: if more than `period` has passed at `now`, it hands
/// the counter and the lock the values of a new period
/// ([`SynchronisedRateLimiter::restart_of`]) and writes the line after a
/// report of the dropped calls; otherwise the line is dropped. The line is
/// written exactly when the period restarts.
fn close_period(
    counter: &AtomicUsize,
    guard: &mut MutexGuard<'_, u128>,
    now: u128,
    since: u128,
    count: usize,
    period: u128,
    max_per_time: usize,
) -> (r: LogAction)
    requires
        admission(count as nat, max_per_time as nat, period as nat) is None,
    ensures
        exists|swapped: usize|
            #![trigger shared_outcome_at(count, elapsed_between(now, since), swapped, max_per_time, period)]
            r == shared_outcome_at(count, elapsed_between(now, since), swapped, max_per_time, period),
        r.writes() <==> restart_values(now, since, period) is Some,
        r is ResumeThenEmit <==> restart_values(now, since, period) is Some,
        r is ResumeThenEmit ==> r->elapsed_nanos == elapsed_between(now, since),
{
    let elapsed = elapsed_nanos(now, since);
    if let Some(next) = SynchronisedRateLimiter::restart_of(now, since, period) {
        let swapped = restart_count(counter, next.count);
        write_guarded(guard, next.start);
        let action = SynchronisedRateLimiter::reopen(elapsed, swapped, max_per_time, period);
        assert(action == shared_outcome_at(count, elapsed_between(now, since), swapped, max_per_time, period));
        action
    } else {
        assert(LogAction::Suppress == shared_outcome_at(
            count,
            elapsed_between(now, since),
            0,
            max_per_time,
            period,
        ));
        LogAction::Suppress
    }
}

impl SynchronisedRateLimiter {
    /// A limiter whose first period starts now, with no call counted: the
    /// counter and the period start are set to [`SynchronisedRateLimiter::initial_values`].
    /// The counter and the lock keep their contents out of sight of the
    /// proofs, so what they hold is not stated here.
    pub fn new() -> SynchronisedRateLimiter {
        let first = Self::initial_values();
        SynchronisedRateLimiter {
            count: AtomicUsize::new(first.count),
            timestamp: new_lock(first.start),
            origin: instant_now(),
        }
    }

    /// The values that a new limiter starts with: no call counted, and the
    /// first period starting at its creation.
    pub fn initial_values() -> (r: SharedValues)
        ensures
            r@ == fresh_shared(),
            r == (SharedValues { count: 0, start: 0 }),
    {
        SharedValues { count: 0, start: 0 }
    }

    /// What a call past the threshold sets the shared state to, at `now`,
    /// when the period began at `since`: a new period beginning at `now`
    /// with the call counted, if more than `period` has passed.
    pub fn restart_of(now: u128, since: u128, period: u128) -> (r: Option<SharedValues>)
        ensures
            r == restart_values(now, since, period),
            (match r {
                Some(v) => Some(v@),
                None => None,
            }) == restart_plan(now as nat, since as nat, period as nat),
    {
        if elapsed_nanos(now, since) > period {
            Some(SharedValues { count: 1, start: now })
        } else {
            None
        }
    }

    /// The decision of a call numbered `count`, before it looks at the clock.
    pub fn admission_of(count: usize, max_per_time: usize, period: u128) -> (r: Option<LogAction>)
        ensures
            r == admission(count as nat, max_per_time as nat, period as nat),
    {
        if count <= max_per_time {
            if count == max_per_time {
                Some(LogAction::EmitThenThrottle { remaining_nanos: period })
            } else {
                Some(LogAction::Emit)
            }
        } else {
            None
        }
    }

    /// The decision of a call past the threshold that holds the lock,
    /// `elapsed` after the period began, where the counter held `swapped`
    /// when it was reset.
    pub fn reopen(elapsed: u128, swapped: usize, max_per_time: usize, period: u128) -> (r: LogAction)
        ensures
            r == reopening(elapsed as nat, swapped as nat, max_per_time as nat, period as nat),
    {
        if elapsed > period {
            let ignored = swapped.saturating_sub(max_per_time).saturating_sub(1);
            LogAction::ResumeThenEmit { ignored, elapsed_nanos: elapsed }
        } else {
            LogAction::Suppress
        }
    }

    /// The part of a call numbered `count` that lies past the threshold,
    /// at `now`: under the lock, if more than `period` has passed since the
    /// period began, the period restarts at `now` with the counter at one.
    fn past_threshold(&self, now: u128, count: usize, period: u128, max_per_time: usize) -> (r: LogAction)
        requires
            admission(count as nat, max_per_time as nat, period as nat) is None,
        ensures
            exists|since: u128, swapped: usize|
                #![trigger shared_outcome_at(count, elapsed_between(now, since), swapped, max_per_time, period)]
                r == shared_outcome_at(count, elapsed_between(now, since), swapped, max_per_time, period)
                    && (r.writes() <==> restart_values(now, since, period) is Some),
    {
        let mut guard = acquire(&self.timestamp);
        let since = read_guarded(&guard);
        close_period(&self.count, &mut guard, now, since, count, period, max_per_time)
    }

    /// One call of the line at `now` (nanoseconds since the limiter was
    /// created): counts the call and says what to write. The call's count,
    /// the start of the period and the counter at its reset are whatever the
    /// shared state held, as other threads change it too; the outcome is
    /// [`shared_outcome`] of them.
    pub fn log_maybe_at(&self, now: u128, period: u128, max_per_time: usize) -> (r: LogAction)
        ensures
            exists|count: usize, since: u128, swapped: usize|
                #![trigger shared_outcome_at(count, elapsed_between(now, since), swapped, max_per_time, period)]
                r == shared_outcome_at(count, elapsed_between(now, since), swapped, max_per_time, period),
    {
        let count = count_call(&self.count).wrapping_add(1);
        match Self::admission_of(count, max_per_time, period) {
            Some(action) => {
                assert(action == shared_outcome_at(count, elapsed_between(now, 0), 0, max_per_time, period));
                action
            },
            None => self.past_threshold(now, count, period, max_per_time),
        }
    }

    /// One call of the line now: counts the call and says what to write, as
    /// [`SynchronisedRateLimiter::log_maybe_at`] does; the clock is read only
    /// when the call is past the threshold.
    pub fn log_maybe(&self, period: u128, max_per_time: usize) -> (r: LogAction)
        ensures
            exists|count: usize, elapsed: nat, swapped: usize|
                #![trigger shared_outcome_at(count, elapsed, swapped, max_per_time, period)]
                r == shared_outcome_at(count, elapsed, swapped, max_per_time, period),
    {
        let count = count_call(&self.count).wrapping_add(1);
        match Self::admission_of(count, max_per_time, period) {
            Some(action) => {
                assert(action == shared_outcome_at(count, 0, 0, max_per_time, period));
                action
            },
            None => {
                let now = nanos_since(&self.origin);
                self.past_threshold(now, count, period, max_per_time)
            },
        }
    }
}

/// A call past the threshold writes its line exactly when it restarts the
/// period, that is, when more than `period` has passed since the period
/// began; the line then comes after a report of the calls dropped (the
/// counter's value at the reset, less the `max` calls written and less the
/// call itself) and of the time since the period began.
pub proof fn lemma_past_threshold_writes_on_restart(
    count: nat,
    elapsed: nat,
    swapped: nat,
    max: nat,
    period: nat,
)
    requires
        count > max,
    ensures
        shared_outcome(count, elapsed, swapped, max, period).writes() <==> elapsed > period,
        elapsed > period ==> shared_outcome(count, elapsed, swapped, max, period) == (LogAction::ResumeThenEmit {
            ignored: ignored_calls(swapped, max) as usize,
            elapsed_nanos: elapsed as u128,
        }),
{
}

/// A call of the shared limiter made while no other thread calls it writes
/// its line exactly when its count is within the threshold or more than
/// `period` has passed since the period began; a call that resets the
/// counter and the period start always writes, after a report.
pub proof fn lemma_lone_call_writes_exactly_when(s: SharedState, now: nat, period: nat, max: nat)
    ensures
        shared_step(s, now, period, max).1.writes() <==> (s.count < max || elapsed_since(now, s.timestamp) > period),
        (s.count >= max && elapsed_since(now, s.timestamp) > period) ==> {
            &&& shared_step(s, now, period, max).0 == (SharedState { count: 1, timestamp: now })
            &&& shared_step(s, now, period, max).1 is ResumeThenEmit
        },
{
}

} // verus!
