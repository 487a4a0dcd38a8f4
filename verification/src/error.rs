//! Failures an array operation can report.

use vstd::prelude::*;

verus! {

/// An element violated the domain required by an operation's statistical
/// model: a negative value where only non-negative counts are meaningful.
/// Carries the first offending value observed; the partially computed
/// output is discarded, so no array accompanies it.
#[derive(Clone, Copy, Debug, PartialEq, Eq, Structural)]
pub struct DomainError {
    pub offending_value: i32,
}

/// An operation-level scalar parameter was outside its valid domain, such
/// as a Poisson rate that is not a strictly positive finite number. Checked
/// once, up front, before any array work starts.
#[derive(Clone, Copy, Debug, PartialEq, Eq, Structural)]
pub struct ParameterError;

} // verus!
