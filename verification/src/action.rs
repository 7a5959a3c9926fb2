//! What a limiter tells its caller to write for one call.

use vstd::prelude::*;

verus! {

/// The outcome of one call of a rate-limited log line.
#[derive(Debug, Clone, Copy, PartialEq, Eq, Structural)]
pub enum LogAction {
    /// The line is dropped.
    Suppress,
    /// The line is written.
    Emit,
    /// The line is written; then a notice says that the threshold is reached
    /// and that the line is dropped for the next `remaining_nanos`.
    EmitThenThrottle { remaining_nanos: u128 },
    /// A notice says that `ignored` lines were dropped over the last
    /// `elapsed_nanos`; then the line is written.
    ResumeThenEmit { ignored: usize, elapsed_nanos: u128 },
}

impl LogAction {
    /// Whether the line itself is written.
    pub open spec fn writes(self) -> bool {
        !(self is Suppress)
    }

    /// Whether the line itself is written.
    pub fn emits(&self) -> (r: bool)
        ensures
            r == self.writes(),
    {
        match self {
            LogAction::Suppress => false,
            _ => true,
        }
    }
}

} // verus!
