//! The ways in which folding an event into the state can fail.

use vstd::prelude::*;

verus! {

/// Why an event could not be folded into the state. Each of these means that
/// the log is not one that a well-behaved server writes; a caller may stop
/// at the first one or skip the line.
#[derive(Clone, Copy, Debug, PartialEq, Eq, Structural)]
pub enum FoldError {
    /// No session starts at the instant that the state names as current.
    SessionNotFound,
    /// A name could not be resolved, or the current session has no player of
    /// that name.
    UnknownPlayer,
    /// The amount of a damage message is not a decimal number.
    MalformedAmount,
    /// A counter is at the largest value it can hold.
    CounterOverflow,
}

} // verus!
