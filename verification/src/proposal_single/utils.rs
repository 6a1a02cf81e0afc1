//! Checks on the configured voting periods.
use crate::expiration::Duration;
use crate::proposal_single::error::ContractError;
use vstd::prelude::*;

verus! {

/// The error, if any, of a minimum voting period against a maximum
/// one: they must use the same unit and the minimum must not exceed
/// the maximum.
pub open spec fn voting_period_error(min: Option<Duration>, max: Duration) -> Option<
    ContractError,
> {
    match min {
        None => None,
        Some(m) => match (m, max) {
            (Duration::Time(a), Duration::Time(b)) => if a <= b {
                None
            } else {
                Some(ContractError::InvalidMinVotingPeriod {})
            },
            (Duration::Height(a), Duration::Height(b)) => if a <= b {
                None
            } else {
                Some(ContractError::InvalidMinVotingPeriod {})
            },
            _ => Some(ContractError::DurationUnitsConflict {}),
        },
    }
}

/// Validates that the minimum voting period is no longer than the
/// maximum one, and hands both back.
pub fn validate_voting_period(min: Option<Duration>, max: Duration) -> (r: Result<
    (Option<Duration>, Duration),
    ContractError,
>)
    ensures
        match voting_period_error(min, max) {
            Some(e) => r == Err::<(Option<Duration>, Duration), ContractError>(e),
            None => r == Ok::<(Option<Duration>, Duration), ContractError>((min, max)),
        },
{
    match min {
        None => Ok((min, max)),
        Some(m) => {
            let valid = match (m, max) {
                (Duration::Time(a), Duration::Time(b)) => a <= b,
                (Duration::Height(a), Duration::Height(b)) => a <= b,
                _ => {
                    return Err(ContractError::DurationUnitsConflict {});
                },
            };
            if valid {
                Ok((min, max))
            } else {
                Err(ContractError::InvalidMinVotingPeriod {})
            }
        },
    }
}

} // verus!
