//! The thresholds of the early single choice governance module.
use crate::govmod_single::contract::ContractError;
use crate::threshold::{Decimal, DECIMAL_FRACTIONAL};
use vstd::prelude::*;

verus! {

/// The ways a proposal may reach its passing or failing threshold.
#[derive(Clone, Copy, Debug, PartialEq, Eq, Structural)]
pub enum Threshold {
    /// A percentage of the total weight (less abstentions) must vote
    /// yes.
    AbsolutePercentage { percentage: Decimal },
    /// A quorum of the total weight must vote, and of the votes (less
    /// abstentions) `threshold` must be yes.
    ThresholdQuorum { threshold: Decimal, quorum: Decimal },
}

/// The error, if any, of a percentage: it must lie in (0, 1].
pub open spec fn percentage_error(p: Decimal) -> Option<ContractError> {
    if p.atomics == 0 {
        Some(ContractError::ZeroThreshold {})
    } else if p.atomics > DECIMAL_FRACTIONAL {
        Some(ContractError::UnreachableThreshold {})
    } else {
        None
    }
}

impl Threshold {
    pub open spec fn at_most_one(self) -> bool {
        match self {
            Threshold::AbsolutePercentage { percentage } => percentage.atomics <= DECIMAL_FRACTIONAL,
            Threshold::ThresholdQuorum { threshold, quorum } => threshold.atomics
                <= DECIMAL_FRACTIONAL && quorum.atomics <= DECIMAL_FRACTIONAL,
        }
    }

    /// The error, if any, of the threshold.
    pub open spec fn error(self) -> Option<ContractError> {
        match self {
            Threshold::AbsolutePercentage { percentage } => percentage_error(percentage),
            Threshold::ThresholdQuorum { threshold, quorum } => match percentage_error(threshold) {
                Some(e) => Some(e),
                None => percentage_error(quorum),
            },
        }
    }

    /// Refuses percentages that are zero or above 100%.
    pub fn validate(&self) -> (r: Result<(), ContractError>)
        ensures
            match self.error() {
                Some(e) => r == Err::<(), ContractError>(e),
                None => r is Ok && self.at_most_one(),
            },
    {
        match self {
            Threshold::AbsolutePercentage { percentage } => validate_percentage(percentage),
            Threshold::ThresholdQuorum { threshold, quorum } => {
                match validate_percentage(threshold) {
                    Err(e) => Err(e),
                    Ok(()) => validate_percentage(quorum),
                }
            },
        }
    }
}

/// Asserts that 0 < percent <= 1.
fn validate_percentage(percent: &Decimal) -> (r: Result<(), ContractError>)
    ensures
        match percentage_error(*percent) {
            Some(e) => r == Err::<(), ContractError>(e),
            None => r is Ok,
        },
{
    if percent.is_zero() {
        Err(ContractError::ZeroThreshold {})
    } else if percent.atomics > DECIMAL_FRACTIONAL {
        Err(ContractError::UnreachableThreshold {})
    } else {
        Ok(())
    }
}

} // verus!
