# log_limit

Rate limiting for log lines: a line that is called too often is written at
most `max_per_time` times per `period`; the rest of the period it is dropped,
and when the next period starts a notice reports how many calls were dropped.

- `src/` is the verified library (Verus). `local.rs` holds the limiter that one
  thread owns, with its rules as the spec function `step`; `sync.rs` the
  limiter that all threads share: the values it hands to its counter and lock
  come from verified functions (`initial_values`, `restart_of`), and a model of
  one call at a time (`shared_step`) is built on the same rules;
  `laws.rs` what holds of whole runs of calls (at most `(n + 1) * max` lines in
  any `n` periods, at most `c * max` lines and `2 * c` notices over `c` periods
  from a new limiter, dropping lasts the rest of the period, every dropped call
  is reported exactly when the next period starts). `time.rs` and
  `lock.rs` reach the clock and the lock of `std`.
- `app/` holds the logging macros (`info_limit!`, `info_limit_global!`, ...),
  which ask a limiter per call site and write through the `log` crate; the
  notices can be turned off with `set_warning_messages(false)`.
- `tests/` runs the limiters on concrete calls.
