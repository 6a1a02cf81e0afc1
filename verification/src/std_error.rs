//! Generic errors of contract storage and arithmetic.
use vstd::prelude::*;

verus! {

/// A generic failure: something looked up is missing, or arithmetic
/// went out of range.
#[derive(Clone, Copy, Debug, PartialEq, Eq, Structural)]
pub enum StdError {
    /// An item that was looked up does not exist.
    NotFound {},
    /// An addition or multiplication overflowed.
    Overflow {},
    /// A division by zero.
    DivideByZero {},
    /// A message could not be parsed.
    ParseErr {},
}

} // verus!
