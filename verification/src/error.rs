//! The errors that the generator's operations report.

use vstd::prelude::*;

verus! {

/// An argument that breaks what an operation asks of it. An operation that
/// reports one has drawn nothing: the generator is as it was.
#[derive(Clone, Copy, Debug, PartialEq, Eq, Hash)]
pub enum ArgumentError {
    /// The lower bound of an inclusive range lies above its upper bound.
    InvertedRange,
    /// The upper bound of a half-open range does not lie above its lower bound.
    EmptyRange,
    /// There is nothing to pick from, and something was asked for.
    EmptyInput,
    /// More distinct elements were asked for than there are.
    SampleTooLarge,
    /// The choices and the weights differ in number.
    LengthMismatch,
    /// The weights add up to zero, so no choice can be drawn.
    ZeroTotalWeight,
    /// The weights add up to more than a raw draw can cover.
    WeightOverflow,
}

/// An error of the library outside the generator's operations.
#[derive(Debug)]
pub enum VrdError {
    /// Writing a log entry failed.
    LogError(String),
    /// Any other failure.
    GeneralError(String),
}

} // verus!
