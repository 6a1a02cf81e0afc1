//! Messages of the single choice proposal module that carry plain
//! values.
pub use crate::deposit::DepositToken;
use vstd::prelude::*;

verus! {

/// The message that migrates the module; it carries nothing.
#[derive(Clone, Copy, Debug, PartialEq, Eq, Structural)]
pub struct MigrateMsg {}

/// Whether a vote in a test scenario is expected to be accepted.
#[derive(Clone, Copy, Debug, PartialEq, Eq, Structural)]
pub enum ShouldExecute {
    /// The vote must be accepted.
    Yes,
    /// The vote must be refused.
    No,
    /// Either is fine.
    Meh,
}

} // verus!
