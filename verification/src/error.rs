//! The ways in which an operation of the search can be refused.

use vstd::prelude::*;

verus! {

/// Why an operation was refused. Every refusal is detected before the
/// operation changes anything.
#[derive(Debug, Clone, Copy, PartialEq, Eq, Structural)]
pub enum EvolutionError {
    /// The settings cannot drive a search: an empty alphabet, a zero mutation
    /// rate, counts that do not fit together.
    Configuration,
    /// An organism whose fitness has not been computed was ranked.
    EvaluationPrecondition,
    /// A fitness does not fit the integer that stores it.
    ArithmeticOverflow,
    /// More organisms were asked for than the population holds.
    OutOfRange,
}

} // verus!
