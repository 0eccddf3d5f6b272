//! The error type shared by the evaluation engine.

use vstd::prelude::*;

verus! {

/// What can go wrong while evaluating targets.
///
/// `Input` marks an unrecognized or unsupported user input, `ScoreTooLow`
/// the deliberate non-zero-exit signal of the post evaluation, `Timeout`
/// an expired evaluation deadline, and `Other` everything else, with a
/// message.
#[derive(Debug, Clone, PartialEq, Eq)]
pub enum Error {
    Input(String),
    ScoreTooLow,
    Timeout,
    Other(String),
}

} // verus!
