//! What holds of a run of calls of the thread-owned limiter.
//!
//! A run is a sequence of call times, in nanoseconds since the limiter was
//! created; each call is one [`step`]. Call `k` of the run is made in
//! [`state_after`] the first `k` calls.

use vstd::prelude::*;

use crate::action::LogAction;
use crate::local::{fresh_state, starts_period, step, LimiterState};
use crate::sync::{fresh_shared, shared_outcome, shared_step, SharedState};
use crate::time::elapsed_since;

verus! {

/// The state after the first `k` calls of the run.
pub open spec fn state_after(s: LimiterState, times: Seq<nat>, period: nat, max: nat, k: nat) -> LimiterState
    decreases k,
{
    if k == 0 {
        s
    } else {
        step(state_after(s, times, period, max, (k - 1) as nat), times[k - 1], period, max).0
    }
}

/// What call `k` of the run writes.
pub open spec fn action_at(s: LimiterState, times: Seq<nat>, period: nat, max: nat, k: nat) -> LogAction {
    step(state_after(s, times, period, max, k), times[k as int], period, max).1
}

/// How many of the calls `lo` to `hi - 1` write the line.
pub open spec fn written(s: LimiterState, times: Seq<nat>, period: nat, max: nat, lo: nat, hi: nat) -> nat
    decreases hi,
{
    if hi <= lo {
        0
    } else {
        written(s, times, period, max, lo, (hi - 1) as nat) + if action_at(
            s,
            times,
            period,
            max,
            (hi - 1) as nat,
        ).writes() {
            1nat
        } else {
            0nat
        }
    }
}

/// How many of the calls `lo` to `hi - 1` start a new period.
pub open spec fn period_starts(s: LimiterState, times: Seq<nat>, period: nat, max: nat, lo: nat, hi: nat) -> nat
    decreases hi,
{
    if hi <= lo {
        0
    } else {
        period_starts(s, times, period, max, lo, (hi - 1) as nat) + if starts_period(
            state_after(s, times, period, max, (hi - 1) as nat),
            times[hi - 1],
            period,
            max,
        ) {
            1nat
        } else {
            0nat
        }
    }
}

/// The calls are made in the order of their times.
pub open spec fn in_time_order(times: Seq<nat>) -> bool {
    forall|a: int, b: int| 0 <= a <= b < times.len() ==> times[a] <= times[b]
}

/// The most lines that one period writes: `max`, and at least the one line
/// that starts it.
pub open spec fn per_period(max: nat) -> nat {
    if max == 0 {
        1
    } else {
        max
    }
}

/// The part of the current period's budget that is spent.
spec fn spent(s: LimiterState, max: nat) -> nat {
    if s.count < per_period(max) {
        s.count
    } else {
        per_period(max)
    }
}

/// One call writes at most what it spends of the budget, and a call that
/// starts a period also gets a new budget.
proof fn lemma_step_spends(s: LimiterState, now: nat, period: nat, max: nat)
    ensures
        (if step(s, now, period, max).1.writes() { 1nat } else { 0nat }) + spent(s, max)
            <= spent(step(s, now, period, max).0, max) + if starts_period(s, now, period, max) {
            per_period(max)
        } else {
            0
        },
{
}

/// Over calls `lo` to `hi - 1`, the lines written are bounded by the budget
/// spent and the budgets of the periods started.
proof fn lemma_written_by_budget(s: LimiterState, times: Seq<nat>, period: nat, max: nat, lo: nat, hi: nat)
    requires
        lo <= hi,
    ensures
        written(s, times, period, max, lo, hi) + spent(state_after(s, times, period, max, lo), max)
            <= spent(state_after(s, times, period, max, hi), max) + per_period(max) * period_starts(
            s,
            times,
            period,
            max,
            lo,
            hi,
        ),
    decreases hi,
{
    if hi > lo {
        let k = (hi - 1) as nat;
        lemma_written_by_budget(s, times, period, max, lo, k);
        lemma_step_spends(state_after(s, times, period, max, k), times[k as int], period, max);
        let r = period_starts(s, times, period, max, lo, k);
        assert(per_period(max) * (r + 1) == per_period(max) * r + per_period(max)) by (nonlinear_arith);
    }
}

/// The periods started over calls `lo` to `hi - 1` began at least
/// `period + 1` apart, the first of them no earlier than call `lo`, and the
/// last of them no later than call `hi - 1`.
proof fn lemma_period_starts_spread(s: LimiterState, times: Seq<nat>, period: nat, max: nat, lo: nat, hi: nat)
    requires
        in_time_order(times),
        lo <= hi <= times.len(),
    ensures
        period_starts(s, times, period, max, lo, hi) >= 1 ==> {
            let st = state_after(s, times, period, max, hi);
            let r = period_starts(s, times, period, max, lo, hi);
            &&& lo < hi
            &&& st.timestamp >= times[lo as int] + (r - 1) * (period + 1)
            &&& st.timestamp <= times[hi - 1]
        },
    decreases hi,
{
    if hi > lo {
        let k = (hi - 1) as nat;
        lemma_period_starts_spread(s, times, period, max, lo, k);
        let before = state_after(s, times, period, max, k);
        let r = period_starts(s, times, period, max, lo, k);
        let after = state_after(s, times, period, max, hi);
        assert(after == step(before, times[k as int], period, max).0);
        if starts_period(before, times[k as int], period, max) {
            assert(after.timestamp == times[k as int]);
            assert(period_starts(s, times, period, max, lo, hi) == r + 1);
            if r >= 1 {
                assert(times[k as int] >= before.timestamp + period + 1);
                assert(times[k - 1] <= times[k as int]);
                assert((r + 1 - 1) * (period + 1) == (r - 1) * (period + 1) + (period + 1))
                    by (nonlinear_arith)
                    requires
                        r >= 1,
                ;
            } else {
                assert(times[lo as int] <= times[k as int]);
                assert((r + 1 - 1) * (period + 1) == 0) by (nonlinear_arith)
                    requires
                        r == 0,
                ;
            }
        } else {
            assert(after.timestamp == before.timestamp);
            assert(period_starts(s, times, period, max, lo, hi) == r);
            if r >= 1 {
                assert(times[k - 1] <= times[k as int]);
            }
        }
    }
}

/// Any stretch of the run that lasts at most `n` periods writes at most
/// `n + 1` periods' worth of lines: `(n + 1) * max` (one line per period
/// where `max` is zero). With `n == 1`: any span of one period holds at most
/// twice the threshold, as two bursts can fall in it; over a long run the
/// rate does not exceed `max` per `period` on average. This holds from any
/// state of the limiter, for calls made in the order of their times.
pub proof fn lemma_window_bound(
    s: LimiterState,
    times: Seq<nat>,
    period: nat,
    max: nat,
    i: nat,
    j: nat,
    n: nat,
)
    requires
        in_time_order(times),
        i <= j < times.len(),
        n >= 1,
        times[j as int] <= times[i as int] + n * period,
    ensures
        written(s, times, period, max, i, j + 1) <= (n + 1) * per_period(max),
{
    let hi = j + 1;
    lemma_written_by_budget(s, times, period, max, i, hi);
    lemma_period_starts_spread(s, times, period, max, i, hi);
    let r = period_starts(s, times, period, max, i, hi);
    let m = per_period(max);
    if r >= 1 {
        assert((r - 1) * (period + 1) <= n * period);
        assert(r <= n) by (nonlinear_arith)
            requires
                (r - 1) * (period + 1) <= n * period,
                n >= 1,
                r >= 1,
        ;
    }
    assert(m * r <= m * n) by (nonlinear_arith)
        requires
            r <= n,
    ;
    assert(m + m * n == (n + 1) * m) by (nonlinear_arith);
}

/// Once the threshold is reached, every call within the period is dropped:
/// the count goes up and nothing else changes.
pub proof fn lemma_threshold_holds_for_the_period(s: LimiterState, now: nat, period: nat, max: nat)
    requires
        s.count >= max,
        elapsed_since(now, s.timestamp) <= period,
    ensures
        step(s, now, period, max) == (
            LimiterState { count: s.count + 1, timestamp: s.timestamp, logged_timeout: s.logged_timeout },
            LogAction::Suppress,
        ),
{
}

/// After a dropped call, the calls up to `m` are dropped too, as long as
/// they fall within the period of the dropped call.
proof fn lemma_dropping_state(
    s: LimiterState,
    times: Seq<nat>,
    period: nat,
    max: nat,
    k: nat,
    j: nat,
    m: nat,
)
    requires
        in_time_order(times),
        k < m <= j < times.len(),
        action_at(s, times, period, max, k) is Suppress,
        times[j as int] <= state_after(s, times, period, max, k).timestamp + period,
    ensures
        state_after(s, times, period, max, m).count >= max,
        state_after(s, times, period, max, m).timestamp == state_after(s, times, period, max, k).timestamp,
    decreases m,
{
    let prev = (m - 1) as nat;
    let before = state_after(s, times, period, max, prev);
    assert(state_after(s, times, period, max, m) == step(before, times[prev as int], period, max).0);
    if m > k + 1 {
        lemma_dropping_state(s, times, period, max, k, j, prev);
        assert(times[prev as int] <= times[j as int]);
    }
}

/// Dropping is bursty: once a call is dropped, every later call that falls
/// within the same period is dropped as well, so the lines written in a
/// period are the first ones of it.
pub proof fn lemma_dropping_lasts_the_period(
    s: LimiterState,
    times: Seq<nat>,
    period: nat,
    max: nat,
    k: nat,
    j: nat,
)
    requires
        in_time_order(times),
        k < j < times.len(),
        action_at(s, times, period, max, k) is Suppress,
        times[j as int] <= state_after(s, times, period, max, k).timestamp + period,
    ensures
        action_at(s, times, period, max, j) is Suppress,
{
    lemma_dropping_state(s, times, period, max, k, j, j);
}

/// After the threshold notice at call `k`, the calls that follow are dropped
/// until one starts a new period, which is then counted exactly.
proof fn lemma_throttled_state(s: LimiterState, times: Seq<nat>, period: nat, max: nat, k: nat, m: nat)
    requires
        k < m < times.len(),
        action_at(s, times, period, max, k) is EmitThenThrottle,
        forall|x: nat| k < x < m ==> (#[trigger] action_at(s, times, period, max, x)) is Suppress,
    ensures
        state_after(s, times, period, max, m) == (LimiterState {
            count: max + (m - k - 1) as nat,
            timestamp: state_after(s, times, period, max, k).timestamp,
            logged_timeout: true,
        }),
        max >= 1,
    decreases m,
{
    let prev = (m - 1) as nat;
    let before = state_after(s, times, period, max, prev);
    assert(state_after(s, times, period, max, m) == step(before, times[prev as int], period, max).0);
    if m > k + 1 {
        lemma_throttled_state(s, times, period, max, k, prev);
        assert(action_at(s, times, period, max, prev) is Suppress);
    }
}

/// When a period ends after the threshold notice, the notice that follows
/// reports exactly the calls dropped in between, and the time since the
/// period began.
pub proof fn lemma_dropped_calls_are_reported(
    s: LimiterState,
    times: Seq<nat>,
    period: nat,
    max: nat,
    k: nat,
    j: nat,
)
    requires
        k < j < times.len(),
        action_at(s, times, period, max, k) is EmitThenThrottle,
        forall|x: nat| k < x < j ==> (#[trigger] action_at(s, times, period, max, x)) is Suppress,
        !(action_at(s, times, period, max, j) is Suppress),
    ensures
        action_at(s, times, period, max, j) == (LogAction::ResumeThenEmit {
            ignored: (j - k - 1) as usize,
            elapsed_nanos: elapsed_since(times[j as int], state_after(s, times, period, max, k).timestamp) as u128,
        }),
{
    lemma_throttled_state(s, times, period, max, k, j);
}

/// The shared limiter, called by one thread at a time, writes exactly the
/// lines that the thread-owned limiter writes from the same count and
/// period start; where a period ends with a report of dropped calls, both
/// report the same.
pub proof fn lemma_shared_decides_like_owned(s: LimiterState, now: nat, period: nat, max: nat)
    ensures
        step(s, now, period, max).1.writes() == shared_outcome(
            s.count + 1,
            elapsed_since(now, s.timestamp),
            s.count + 1,
            max,
            period,
        ).writes(),
        step(s, now, period, max).1 is ResumeThenEmit ==> step(s, now, period, max).1 == shared_outcome(
            s.count + 1,
            elapsed_since(now, s.timestamp),
            s.count + 1,
            max,
            period,
        ),
{
}

/// How many of the calls `lo` to `hi - 1` drop the line.
pub open spec fn dropped(s: LimiterState, times: Seq<nat>, period: nat, max: nat, lo: nat, hi: nat) -> nat
    decreases hi,
{
    if hi <= lo {
        0
    } else {
        dropped(s, times, period, max, lo, (hi - 1) as nat) + if action_at(
            s,
            times,
            period,
            max,
            (hi - 1) as nat,
        ) is Suppress {
            1nat
        } else {
            0nat
        }
    }
}

/// Whether one of the calls `lo` to `hi - 1` gives the threshold notice.
pub open spec fn noticed(s: LimiterState, times: Seq<nat>, period: nat, max: nat, lo: nat, hi: nat) -> bool
    decreases hi,
{
    if hi <= lo {
        false
    } else {
        noticed(s, times, period, max, lo, (hi - 1) as nat) || action_at(
            s,
            times,
            period,
            max,
            (hi - 1) as nat,
        ) is EmitThenThrottle
    }
}

/// How many notices the calls `lo` to `hi - 1` give: threshold notices and
/// reports of dropped calls.
pub open spec fn notices(s: LimiterState, times: Seq<nat>, period: nat, max: nat, lo: nat, hi: nat) -> nat
    decreases hi,
{
    if hi <= lo {
        0
    } else {
        notices(s, times, period, max, lo, (hi - 1) as nat) + match action_at(
            s,
            times,
            period,
            max,
            (hi - 1) as nat,
        ) {
            LogAction::EmitThenThrottle { .. } => 1nat,
            LogAction::ResumeThenEmit { .. } => 1nat,
            _ => 0nat,
        }
    }
}

/// The call that began the period in which call `k` is made: the last call
/// before `k` that started a period, or the first call of the run.
pub open spec fn period_begins(s: LimiterState, times: Seq<nat>, period: nat, max: nat, k: nat) -> nat
    decreases k,
{
    if k == 0 {
        0
    } else if starts_period(state_after(s, times, period, max, (k - 1) as nat), times[k - 1], period, max) {
        (k - 1) as nat
    } else {
        period_begins(s, times, period, max, (k - 1) as nat)
    }
}

/// In a run from a new limiter with a threshold of at least one, the count
/// past the threshold is the number of calls dropped in the current period,
/// and the notice flag says whether the threshold notice was given in it.
proof fn lemma_period_bookkeeping(times: Seq<nat>, period: nat, max: nat, k: nat)
    requires
        max >= 1,
    ensures
        ({
            let s = fresh_state();
            let st = state_after(s, times, period, max, k);
            let b = period_begins(s, times, period, max, k);
            &&& b <= k
            &&& dropped(s, times, period, max, b, k) == if st.count >= max {
                (st.count - max) as nat
            } else {
                0nat
            }
            &&& st.logged_timeout == noticed(s, times, period, max, b, k)
        }),
    decreases k,
{
    let s = fresh_state();
    if k > 0 {
        let prev = (k - 1) as nat;
        lemma_period_bookkeeping(times, period, max, prev);
        let before = state_after(s, times, period, max, prev);
        assert(state_after(s, times, period, max, k) == step(before, times[prev as int], period, max).0);
        if starts_period(before, times[prev as int], period, max) {
            assert(period_begins(s, times, period, max, k) == prev);
            assert(dropped(s, times, period, max, prev, prev) == 0);
            assert(!noticed(s, times, period, max, prev, prev));
        } else {
            assert(period_begins(s, times, period, max, k) == period_begins(s, times, period, max, prev));
        }
    }
}

/// Every dropped call is reported: in a run from a new limiter with a
/// threshold of at least one, a call that starts a new period reports the
/// calls dropped in the period that ends, whenever there were any, and any
/// report it gives counts exactly those calls.
pub proof fn lemma_restart_reports_dropped_calls(times: Seq<nat>, period: nat, max: nat, j: nat)
    requires
        max >= 1,
        j < times.len(),
        starts_period(state_after(fresh_state(), times, period, max, j), times[j as int], period, max),
    ensures
        ({
            let s = fresh_state();
            let d = dropped(s, times, period, max, period_begins(s, times, period, max, j), j);
            let a = action_at(s, times, period, max, j);
            &&& d > 0 ==> a == (LogAction::ResumeThenEmit {
                ignored: d as usize,
                elapsed_nanos: elapsed_since(times[j as int], state_after(s, times, period, max, j).timestamp) as u128,
            })
            &&& a is ResumeThenEmit ==> a->ignored == d as usize
            &&& a.writes()
        }),
{
    lemma_period_bookkeeping(times, period, max, j);
}

/// With a threshold of at least two and calls in the order of their times,
/// a call that is dropped comes after the threshold notice of its period:
/// a new limiter never drops a call while the notice flag is clear.
proof fn lemma_drops_follow_notice(times: Seq<nat>, period: nat, max: nat, k: nat)
    requires
        max >= 2,
        in_time_order(times),
        k <= times.len(),
    ensures
        ({
            let st = state_after(fresh_state(), times, period, max, k);
            &&& st.count > max ==> st.logged_timeout
            &&& (k >= 1 && st.count >= max && !st.logged_timeout) ==> times[k - 1] > st.timestamp + period
        }),
    decreases k,
{
    let s = fresh_state();
    if k > 0 {
        let prev = (k - 1) as nat;
        lemma_drops_follow_notice(times, period, max, prev);
        let before = state_after(s, times, period, max, prev);
        assert(state_after(s, times, period, max, k) == step(before, times[prev as int], period, max).0);
        if prev >= 1 {
            assert(times[prev - 1] <= times[prev as int]);
        }
    }
}

/// With a threshold of at least two and calls in the order of their times,
/// a call of a new limiter that starts a new period reports dropped calls
/// exactly when the threshold notice was given in the period that ends; and
/// a period in which calls were dropped always gave that notice.
pub proof fn lemma_report_follows_notice(times: Seq<nat>, period: nat, max: nat, j: nat)
    requires
        max >= 2,
        in_time_order(times),
        j < times.len(),
        starts_period(state_after(fresh_state(), times, period, max, j), times[j as int], period, max),
    ensures
        ({
            let s = fresh_state();
            let b = period_begins(s, times, period, max, j);
            &&& action_at(s, times, period, max, j) is ResumeThenEmit <==> noticed(s, times, period, max, b, j)
            &&& dropped(s, times, period, max, b, j) > 0 ==> noticed(s, times, period, max, b, j)
        }),
{
    lemma_period_bookkeeping(times, period, max, j);
    lemma_drops_follow_notice(times, period, max, j);
}

/// Each period started in a run begins more than `period` after the one
/// before it, and the first of them more than `period` after the start of
/// the run's first period; each begins at the time of one of the calls.
proof fn lemma_period_starts_climb(
    s: LimiterState,
    times: Seq<nat>,
    period: nat,
    max: nat,
    hi: nat,
    bound: nat,
)
    requires
        hi <= times.len(),
        forall|x: int| 0 <= x < times.len() ==> times[x] < bound,
    ensures
        state_after(s, times, period, max, hi).timestamp >= s.timestamp + period_starts(s, times, period, max, 0, hi) * (
        period + 1),
        period_starts(s, times, period, max, 0, hi) >= 1 ==> state_after(s, times, period, max, hi).timestamp < bound,
    decreases hi,
{
    if hi > 0 {
        let k = (hi - 1) as nat;
        lemma_period_starts_climb(s, times, period, max, k, bound);
        let before = state_after(s, times, period, max, k);
        let r = period_starts(s, times, period, max, 0, k);
        assert(state_after(s, times, period, max, hi) == step(before, times[k as int], period, max).0);
        assert((r + 1) * (period + 1) == r * (period + 1) + (period + 1)) by (nonlinear_arith);
    } else {
        assert(0 * (period + 1) == 0) by (nonlinear_arith);
    }
}

/// Whether the threshold is reached in state `s`.
spec fn at_threshold(s: LimiterState, max: nat) -> nat {
    if s.count >= max {
        1
    } else {
        0
    }
}

/// One call gives at most one notice: a threshold notice only where it
/// reaches the threshold, a report only where it starts a new period.
proof fn lemma_step_notices(s: LimiterState, now: nat, period: nat, max: nat)
    ensures
        (match step(s, now, period, max).1 {
            LogAction::EmitThenThrottle { .. } => 1nat,
            LogAction::ResumeThenEmit { .. } => 1nat,
            _ => 0nat,
        }) + at_threshold(s, max) <= at_threshold(step(s, now, period, max).0, max) + if starts_period(
            s,
            now,
            period,
            max,
        ) {
            2nat
        } else {
            0nat
        },
{
}

/// Over calls `lo` to `hi - 1`, the notices given are bounded by the
/// threshold being reached once per period and the reports of the periods
/// started.
proof fn lemma_notices_by_threshold(s: LimiterState, times: Seq<nat>, period: nat, max: nat, lo: nat, hi: nat)
    requires
        lo <= hi,
    ensures
        notices(s, times, period, max, lo, hi) + at_threshold(state_after(s, times, period, max, lo), max)
            <= at_threshold(state_after(s, times, period, max, hi), max) + 2 * period_starts(
            s,
            times,
            period,
            max,
            lo,
            hi,
        ),
    decreases hi,
{
    if hi > lo {
        let k = (hi - 1) as nat;
        lemma_notices_by_threshold(s, times, period, max, lo, k);
        lemma_step_notices(state_after(s, times, period, max, k), times[k as int], period, max);
    }
}

/// A new limiter whose calls all fall before `bound`, where `bound` is at
/// most `c` periods, writes at most `c * max` lines (one per period where
/// `max` is zero) and gives at most `2 * c` notices: a threshold notice and
/// a report per period. With `c` the smallest such number, that is
/// `max * ceil(bound / period)` lines; e.g. 500 lines per millisecond over
/// 500 milliseconds write at most 250000 lines and 1000 notices.
pub proof fn lemma_fresh_run_bound(times: Seq<nat>, period: nat, max: nat, bound: nat, c: nat)
    requires
        forall|x: int| 0 <= x < times.len() ==> times[x] < bound,
        bound <= c * period,
    ensures
        written(fresh_state(), times, period, max, 0, times.len()) <= c * per_period(max),
        notices(fresh_state(), times, period, max, 0, times.len()) <= 2 * c,
{
    let s = fresh_state();
    let len = times.len();
    let m = per_period(max);
    if len > 0 {
        lemma_written_by_budget(s, times, period, max, 0, len);
        lemma_notices_by_threshold(s, times, period, max, 0, len);
        lemma_period_starts_climb(s, times, period, max, len, bound);
        let r = period_starts(s, times, period, max, 0, len);
        let ts = state_after(s, times, period, max, len).timestamp;
        assert(times[0] < bound);
        assert(c >= 1) by (nonlinear_arith)
            requires
                bound <= c * period,
                bound > 0,
        ;
        if r >= 1 {
            assert(r < c) by (nonlinear_arith)
                requires
                    r * (period + 1) <= ts,
                    ts < bound,
                    bound <= c * period,
            ;
        }
        assert(m + m * r <= c * m) by (nonlinear_arith)
            requires
                r + 1 <= c,
        ;
    }
}

/// The state of the shared limiter after the first `k` calls of a run in
/// which one call is made at a time.
pub open spec fn shared_state_after(s: SharedState, times: Seq<nat>, period: nat, max: nat, k: nat) -> SharedState
    decreases k,
{
    if k == 0 {
        s
    } else {
        shared_step(shared_state_after(s, times, period, max, (k - 1) as nat), times[k - 1], period, max).0
    }
}

/// What call `k` of such a run of the shared limiter writes.
pub open spec fn shared_action_at(s: SharedState, times: Seq<nat>, period: nat, max: nat, k: nat) -> LogAction {
    shared_step(shared_state_after(s, times, period, max, k), times[k as int], period, max).1
}

/// How many of the calls `lo` to `hi - 1` of the shared limiter write the line.
pub open spec fn shared_written(s: SharedState, times: Seq<nat>, period: nat, max: nat, lo: nat, hi: nat) -> nat
    decreases hi,
{
    if hi <= lo {
        0
    } else {
        shared_written(s, times, period, max, lo, (hi - 1) as nat) + if shared_action_at(
            s,
            times,
            period,
            max,
            (hi - 1) as nat,
        ).writes() {
            1nat
        } else {
            0nat
        }
    }
}

/// How many of the calls `lo` to `hi - 1` of the shared limiter drop the line.
pub open spec fn shared_dropped(s: SharedState, times: Seq<nat>, period: nat, max: nat, lo: nat, hi: nat) -> nat
    decreases hi,
{
    if hi <= lo {
        0
    } else {
        shared_dropped(s, times, period, max, lo, (hi - 1) as nat) + if shared_action_at(
            s,
            times,
            period,
            max,
            (hi - 1) as nat,
        ) is Suppress {
            1nat
        } else {
            0nat
        }
    }
}

/// Whether a call of the shared limiter at `now` restarts the period: it is
/// past the threshold and more than `period` has passed.
pub open spec fn shared_restarts(s: SharedState, now: nat, period: nat, max: nat) -> bool {
    s.count >= max && elapsed_since(now, s.timestamp) > period
}

/// The call that began the period of the shared limiter in which call `k`
/// is made: the last call before `k` that restarted it, or the first call.
pub open spec fn shared_period_begins(s: SharedState, times: Seq<nat>, period: nat, max: nat, k: nat) -> nat
    decreases k,
{
    if k == 0 {
        0
    } else if shared_restarts(
        shared_state_after(s, times, period, max, (k - 1) as nat),
        times[k - 1],
        period,
        max,
    ) {
        (k - 1) as nat
    } else {
        shared_period_begins(s, times, period, max, (k - 1) as nat)
    }
}

/// The shared state that matches a state of the thread-owned limiter.
pub open spec fn shared_of(o: LimiterState) -> SharedState {
    SharedState { count: o.count, timestamp: o.timestamp }
}

/// Call by call, a run of the shared limiter keeps the counter and period
/// start that a run of the thread-owned limiter keeps, and writes the same
/// lines.
proof fn lemma_shared_run_tracks_owned(o: LimiterState, times: Seq<nat>, period: nat, max: nat, k: nat)
    ensures
        shared_state_after(shared_of(o), times, period, max, k) == shared_of(state_after(o, times, period, max, k)),
        shared_action_at(shared_of(o), times, period, max, k).writes() == action_at(o, times, period, max, k).writes(),
        shared_period_begins(shared_of(o), times, period, max, k) == period_begins(o, times, period, max, k),
    decreases k,
{
    if k > 0 {
        let prev = (k - 1) as nat;
        lemma_shared_run_tracks_owned(o, times, period, max, prev);
        let before = state_after(o, times, period, max, prev);
        assert(state_after(o, times, period, max, k) == step(before, times[prev as int], period, max).0);
    }
    let st = state_after(o, times, period, max, k);
    assert(shared_action_at(shared_of(o), times, period, max, k) == shared_step(shared_of(st), times[k as int], period, max).1);
}

/// Over calls `lo` to `hi - 1`, the shared limiter writes and drops as many
/// lines as the thread-owned limiter from the matching state.
proof fn lemma_shared_counts_track_owned(o: LimiterState, times: Seq<nat>, period: nat, max: nat, lo: nat, hi: nat)
    ensures
        shared_written(shared_of(o), times, period, max, lo, hi) == written(o, times, period, max, lo, hi),
        shared_dropped(shared_of(o), times, period, max, lo, hi) == dropped(o, times, period, max, lo, hi),
    decreases hi,
{
    if hi > lo {
        let k = (hi - 1) as nat;
        lemma_shared_counts_track_owned(o, times, period, max, lo, k);
        lemma_shared_run_tracks_owned(o, times, period, max, k);
    }
}

/// The shared limiter, called by one thread at a time, writes at most
/// `(n + 1) * max` lines (one per period where `max` is zero) in any stretch
/// of the run that lasts at most `n` periods: at most twice the threshold in
/// any one period.
pub proof fn lemma_shared_window_bound(
    s: SharedState,
    times: Seq<nat>,
    period: nat,
    max: nat,
    i: nat,
    j: nat,
    n: nat,
)
    requires
        in_time_order(times),
        i <= j < times.len(),
        n >= 1,
        times[j as int] <= times[i as int] + n * period,
    ensures
        shared_written(s, times, period, max, i, j + 1) <= (n + 1) * per_period(max),
{
    let o = LimiterState { count: s.count, timestamp: s.timestamp, logged_timeout: false };
    assert(shared_of(o) == s);
    lemma_shared_counts_track_owned(o, times, period, max, i, j + 1);
    lemma_window_bound(o, times, period, max, i, j, n);
}

/// The shared limiter, new and called by one thread at a time with a
/// threshold of at least one, reports at every restart of the period the
/// calls dropped in the period that ends, exactly.
pub proof fn lemma_shared_restart_reports_dropped_calls(times: Seq<nat>, period: nat, max: nat, j: nat)
    requires
        max >= 1,
        j < times.len(),
        shared_restarts(
            shared_state_after(fresh_shared(), times, period, max, j),
            times[j as int],
            period,
            max,
        ),
    ensures
        ({
            let s = fresh_shared();
            shared_action_at(s, times, period, max, j) == (LogAction::ResumeThenEmit {
                ignored: shared_dropped(s, times, period, max, shared_period_begins(s, times, period, max, j), j) as usize,
                elapsed_nanos: elapsed_since(times[j as int], shared_state_after(s, times, period, max, j).timestamp) as u128,
            })
        }),
{
    let o = fresh_state();
    assert(shared_of(o) == fresh_shared());
    lemma_shared_run_tracks_owned(o, times, period, max, j);
    lemma_period_bookkeeping(times, period, max, j);
    lemma_shared_counts_track_owned(o, times, period, max, period_begins(o, times, period, max, j), j);
}

/// While calls `k` to `m - 1` are dropped, the threshold stays reached and
/// the period start stays where it was at call `k`.
proof fn lemma_dropped_run_state(s: LimiterState, times: Seq<nat>, period: nat, max: nat, k: nat, m: nat)
    requires
        k < m <= times.len(),
        forall|x: nat| k <= x < m ==> (#[trigger] action_at(s, times, period, max, x)) is Suppress,
    ensures
        state_after(s, times, period, max, m).count >= max,
        state_after(s, times, period, max, m).timestamp == state_after(s, times, period, max, k).timestamp,
    decreases m,
{
    let prev = (m - 1) as nat;
    let before = state_after(s, times, period, max, prev);
    assert(state_after(s, times, period, max, m) == step(before, times[prev as int], period, max).0);
    assert(action_at(s, times, period, max, prev) is Suppress);
    if m > k + 1 {
        lemma_dropped_run_state(s, times, period, max, k, prev);
    }
}

/// After dropped calls, the first call that comes more than `period` after
/// the start of their period starts a new period at its own time, in which
/// it is counted as the first call, and writes the line.
pub proof fn lemma_first_call_past_the_period_restarts(
    s: LimiterState,
    times: Seq<nat>,
    period: nat,
    max: nat,
    k: nat,
    j: nat,
)
    requires
        k < j < times.len(),
        forall|x: nat| k <= x < j ==> (#[trigger] action_at(s, times, period, max, x)) is Suppress,
        times[j as int] > state_after(s, times, period, max, k).timestamp + period,
    ensures
        starts_period(state_after(s, times, period, max, j), times[j as int], period, max),
        action_at(s, times, period, max, j).writes(),
        state_after(s, times, period, max, j + 1) == (LimiterState {
            count: 1,
            timestamp: times[j as int],
            logged_timeout: false,
        }),
{
    lemma_dropped_run_state(s, times, period, max, k, j);
    let st = state_after(s, times, period, max, j);
    assert(state_after(s, times, period, max, j + 1) == step(st, times[j as int], period, max).0);
}

/// How many notices the calls `lo` to `hi - 1` of the shared limiter give.
pub open spec fn shared_notices(s: SharedState, times: Seq<nat>, period: nat, max: nat, lo: nat, hi: nat) -> nat
    decreases hi,
{
    if hi <= lo {
        0
    } else {
        shared_notices(s, times, period, max, lo, (hi - 1) as nat) + match shared_action_at(
            s,
            times,
            period,
            max,
            (hi - 1) as nat,
        ) {
            LogAction::EmitThenThrottle { .. } => 1nat,
            LogAction::ResumeThenEmit { .. } => 1nat,
            _ => 0nat,
        }
    }
}

/// Whether the shared counter is at or past the threshold.
spec fn shared_at_threshold(s: SharedState, max: nat) -> nat {
    if s.count >= max {
        1
    } else {
        0
    }
}

/// One call of the shared limiter gives at most one notice: a threshold
/// notice only where it reaches the threshold, a report only where it
/// restarts the period.
proof fn lemma_shared_step_notices(s: SharedState, now: nat, period: nat, max: nat)
    ensures
        (match shared_step(s, now, period, max).1 {
            LogAction::EmitThenThrottle { .. } => 1nat,
            LogAction::ResumeThenEmit { .. } => 1nat,
            _ => 0nat,
        }) + shared_at_threshold(s, max) <= shared_at_threshold(shared_step(s, now, period, max).0, max)
            + if shared_restarts(s, now, period, max) {
            2nat
        } else {
            0nat
        },
{
}

/// Over calls `lo` to `hi - 1` of the shared limiter, the notices are
/// bounded by the threshold being reached once per period and the reports
/// of the periods restarted, counted as the thread-owned limiter counts them
/// from the matching state.
proof fn lemma_shared_notices_by_threshold(
    o: LimiterState,
    times: Seq<nat>,
    period: nat,
    max: nat,
    lo: nat,
    hi: nat,
)
    requires
        lo <= hi,
    ensures
        shared_notices(shared_of(o), times, period, max, lo, hi) + shared_at_threshold(
            shared_state_after(shared_of(o), times, period, max, lo),
            max,
        ) <= shared_at_threshold(shared_state_after(shared_of(o), times, period, max, hi), max) + 2
            * period_starts(o, times, period, max, lo, hi),
    decreases hi,
{
    if hi > lo {
        let k = (hi - 1) as nat;
        lemma_shared_notices_by_threshold(o, times, period, max, lo, k);
        lemma_shared_run_tracks_owned(o, times, period, max, k);
        let ss = shared_state_after(shared_of(o), times, period, max, k);
        lemma_shared_step_notices(ss, times[k as int], period, max);
        lemma_shared_run_tracks_owned(o, times, period, max, hi);
    }
}

/// A new shared limiter, called by one thread at a time, whose calls all
/// fall before `bound`, where `bound` is at most `c` periods, writes at most
/// `c * max` lines (one per period where `max` is zero) and gives at most
/// `2 * c` notices.
pub proof fn lemma_shared_fresh_run_bound(times: Seq<nat>, period: nat, max: nat, bound: nat, c: nat)
    requires
        forall|x: int| 0 <= x < times.len() ==> times[x] < bound,
        bound <= c * period,
    ensures
        shared_written(fresh_shared(), times, period, max, 0, times.len()) <= c * per_period(max),
        shared_notices(fresh_shared(), times, period, max, 0, times.len()) <= 2 * c,
{
    let o = fresh_state();
    let len = times.len();
    assert(shared_of(o) == fresh_shared());
    lemma_fresh_run_bound(times, period, max, bound, c);
    lemma_shared_counts_track_owned(o, times, period, max, 0, len);
    if len > 0 {
        lemma_shared_notices_by_threshold(o, times, period, max, 0, len);
        lemma_period_starts_climb(o, times, period, max, len, bound);
        let r = period_starts(o, times, period, max, 0, len);
        let ts = state_after(o, times, period, max, len).timestamp;
        assert(times[0] < bound);
        assert(c >= 1) by (nonlinear_arith)
            requires
                bound <= c * period,
                bound > 0,
        ;
        if r >= 1 {
            assert(r < c) by (nonlinear_arith)
                requires
                    r * (period + 1) <= ts,
                    ts < bound,
                    bound <= c * period,
            ;
        }
    }
}

/// A call of the thread-owned limiter writes its line exactly when fewer
/// than `max` calls were counted in the period, or when the threshold is
/// reached and more than `period` has passed since the period began; in the
/// latter case it starts a new period at its own time.
pub proof fn lemma_writes_exactly_when(s: LimiterState, now: nat, period: nat, max: nat)
    ensures
        step(s, now, period, max).1.writes() <==> (s.count < max || elapsed_since(now, s.timestamp) > period),
        starts_period(s, now, period, max) ==> step(s, now, period, max).0 == (LimiterState {
            count: 1,
            timestamp: now,
            logged_timeout: false,
        }),
{
}

} // verus!
