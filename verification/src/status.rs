//! The life-cycle status of a proposal.
use vstd::prelude::*;

verus! {

/// Where a proposal stands.
#[derive(Clone, Copy, Debug, PartialEq, Eq, Structural)]
pub enum Status {
    /// The proposal is open for voting.
    Open,
    /// The proposal has been rejected.
    Rejected,
    /// The proposal has been passed but has not been executed.
    Passed,
    /// The proposal has been passed and executed.
    Executed,
    /// The proposal has failed or expired and has been closed.
    Closed,
    /// The proposal's execution failed.
    ExecutionFailed,
}

impl Status {
    pub open spec fn spec_name(self) -> Seq<char> {
        match self {
            Status::Open => "open"@,
            Status::Rejected => "rejected"@,
            Status::Passed => "passed"@,
            Status::Executed => "executed"@,
            Status::Closed => "closed"@,
            Status::ExecutionFailed => "execution_failed"@,
        }
    }

    /// The lower-case name of the status, as it appears in responses.
    pub fn as_str(&self) -> (s: &'static str)
        ensures
            s@ == self.spec_name(),
    {
        match self {
            Status::Open => "open",
            Status::Rejected => "rejected",
            Status::Passed => "passed",
            Status::Executed => "executed",
            Status::Closed => "closed",
            Status::ExecutionFailed => "execution_failed",
        }
    }
}

} // verus!
