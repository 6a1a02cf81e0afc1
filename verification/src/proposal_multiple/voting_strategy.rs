//! How the votes of a multiple choice proposal are counted.
use crate::threshold::{
    as_result, quorum_error, validate_count, validate_quorum, PercentageThreshold, ThresholdError,
};
use vstd::prelude::*;

verus! {

/// A threshold for a multiple choice proposal.
#[derive(Clone, Copy, Debug, PartialEq, Eq, Structural)]
pub enum MultipleProposalThreshold {
    /// A quorum of the voting power must take part.
    Percentage { quorum: PercentageThreshold },
    /// A fixed count of votes.
    Absoulute { threshold: u128 },
}

impl MultipleProposalThreshold {
    /// Refuses a quorum above 100% or a zero count.
    pub fn validate(&self) -> (r: Result<(), ThresholdError>)
        ensures
            r == match *self {
                MultipleProposalThreshold::Percentage { quorum } => as_result(quorum_error(quorum)),
                MultipleProposalThreshold::Absoulute { threshold } => if threshold == 0 {
                    Err(ThresholdError::ZeroThreshold {})
                } else {
                    Ok(())
                },
            },
    {
        match self {
            MultipleProposalThreshold::Absoulute { threshold } => validate_count(threshold),
            MultipleProposalThreshold::Percentage { quorum } => validate_quorum(quorum),
        }
    }
}

/// How the votes of a multiple choice proposal are counted.
#[derive(Clone, Copy, Debug, PartialEq, Eq, Structural)]
pub enum VotingStrategy {
    /// Each voter picks one option; the option with the most votes wins
    /// once `quorum` of the voting power has voted.
    SingleChoice { quorum: PercentageThreshold },
}

impl VotingStrategy {
    pub open spec fn spec_quorum(self) -> PercentageThreshold {
        match self {
            VotingStrategy::SingleChoice { quorum } => quorum,
        }
    }

    /// The quorum of the strategy.
    pub fn get_quorum(&self) -> (q: PercentageThreshold)
        ensures
            q == self.spec_quorum(),
    {
        match self {
            VotingStrategy::SingleChoice { quorum } => *quorum,
        }
    }

    /// Refuses a quorum above 100%.
    pub fn validate(&self) -> (r: Result<(), ThresholdError>)
        ensures
            r == as_result(quorum_error(self.spec_quorum())),
    {
        match self {
            VotingStrategy::SingleChoice { quorum } => validate_quorum(quorum),
        }
    }
}

} // verus!
