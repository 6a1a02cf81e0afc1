//! Fixed-point percentages and the thresholds that decide whether a
//! count of votes is enough to pass or to fail a proposal.
use crate::math::{mul_wide, wide_add, wide_lt};
use vstd::prelude::*;

verus! {

/// Number of atomic units in one whole `Decimal` (18 decimal places).
pub const DECIMAL_FRACTIONAL: u128 = 1_000_000_000_000_000_000;

/// Scale applied to vote counts before they are compared with a
/// percentage of the total power.
pub const PRECISION_FACTOR: u128 = 1_000_000_000;

/// A non-negative fixed-point number with 18 decimal places, held as
/// its count of atomic units (one whole is `DECIMAL_FRACTIONAL`).
#[derive(Clone, Copy, Debug, PartialEq, Eq, Structural)]
pub struct Decimal {
    pub atomics: u128,
}

impl Decimal {
    /// The decimal 1.0.
    pub fn one() -> (d: Decimal)
        ensures
            d.atomics == DECIMAL_FRACTIONAL,
    {
        Decimal { atomics: DECIMAL_FRACTIONAL }
    }

    /// The decimal 0.0.
    pub fn zero() -> (d: Decimal)
        ensures
            d.atomics == 0,
    {
        Decimal { atomics: 0 }
    }

    /// `x` percent, that is `x / 100`.
    pub fn percent(x: u64) -> (d: Decimal)
        ensures
            d.atomics == x * 10_000_000_000_000_000,
    {
        Decimal { atomics: (x as u128) * 10_000_000_000_000_000 }
    }

    /// `x` permille, that is `x / 1000`.
    pub fn permille(x: u64) -> (d: Decimal)
        ensures
            d.atomics == x * 1_000_000_000_000_000,
    {
        Decimal { atomics: (x as u128) * 1_000_000_000_000_000 }
    }

    pub fn is_zero(&self) -> (b: bool)
        ensures
            b == (self.atomics == 0),
    {
        self.atomics == 0
    }

    /// `self - other`; the difference of two decimals must not be
    /// negative.
    pub fn sub(self, other: Decimal) -> (d: Decimal)
        requires
            other.atomics <= self.atomics,
        ensures
            d.atomics == self.atomics - other.atomics,
    {
        Decimal { atomics: self.atomics - other.atomics }
    }
}

/// A percentage of voting power that must be reached.
#[derive(Clone, Copy, Debug, PartialEq, Eq, Structural)]
pub enum PercentageThreshold {
    /// More than half of the counted power.
    Majority {},
    /// At least the given fraction of the counted power.
    Percent(Decimal),
}

/// The ways a proposal may reach its passing or failing threshold.
#[allow(inconsistent_fields)]
#[derive(Clone, Copy, Debug, PartialEq, Eq, Structural)]
pub enum Threshold {
    /// A percentage of all voting power (less abstentions) must vote
    /// yes.
    AbsolutePercentage { percentage: PercentageThreshold },
    /// A quorum of the voting power must take part, and of those
    /// taking part (less abstentions) `threshold` must vote yes.
    ThresholdQuorum { threshold: PercentageThreshold, quorum: PercentageThreshold },
    /// A fixed number of yes votes.
    AbsoluteCount { threshold: u128 },
}

/// Why a threshold was refused.
#[derive(Clone, Copy, Debug, PartialEq, Eq, Structural)]
pub enum ThresholdError {
    /// The required threshold is zero.
    ZeroThreshold {},
    /// The required threshold can never be reached.
    UnreachableThreshold {},
}

/// The error, if any, that validating a passing percentage gives.
pub open spec fn percentage_error(percent: PercentageThreshold) -> Option<ThresholdError> {
    match percent {
        PercentageThreshold::Majority {} => None,
        PercentageThreshold::Percent(p) => if p.atomics == 0 {
            Some(ThresholdError::ZeroThreshold {})
        } else if p.atomics > DECIMAL_FRACTIONAL {
            Some(ThresholdError::UnreachableThreshold {})
        } else {
            None
        },
    }
}

/// The error, if any, that validating a quorum gives.
pub open spec fn quorum_error(quorum: PercentageThreshold) -> Option<ThresholdError> {
    match quorum {
        PercentageThreshold::Majority {} => None,
        PercentageThreshold::Percent(p) => if p.atomics > DECIMAL_FRACTIONAL {
            Some(ThresholdError::UnreachableThreshold {})
        } else {
            None
        },
    }
}

/// The error, if any, that validating a threshold gives.
pub open spec fn threshold_error(t: Threshold) -> Option<ThresholdError> {
    match t {
        Threshold::AbsolutePercentage { percentage } => percentage_error(percentage),
        Threshold::ThresholdQuorum { threshold, quorum } => match percentage_error(threshold) {
            Some(e) => Some(e),
            None => quorum_error(quorum),
        },
        Threshold::AbsoluteCount { threshold } => if threshold == 0 {
            Some(ThresholdError::ZeroThreshold {})
        } else {
            None
        },
    }
}

pub open spec fn as_result(e: Option<ThresholdError>) -> Result<(), ThresholdError> {
    match e {
        Some(e) => Err(e),
        None => Ok(()),
    }
}

/// A passing percentage is valid when it is a majority or lies in
/// (0, 1].
pub fn validate_percentage(percent: &PercentageThreshold) -> (res: Result<(), ThresholdError>)
    ensures
        res == as_result(percentage_error(*percent)),
{
    match percent {
        PercentageThreshold::Majority {} => Ok(()),
        PercentageThreshold::Percent(p) => {
            if p.is_zero() {
                Err(ThresholdError::ZeroThreshold {})
            } else if p.atomics > DECIMAL_FRACTIONAL {
                Err(ThresholdError::UnreachableThreshold {})
            } else {
                Ok(())
            }
        },
    }
}

/// A quorum is valid when it is a majority or at most 1.
pub fn validate_quorum(quorum: &PercentageThreshold) -> (res: Result<(), ThresholdError>)
    ensures
        res == as_result(quorum_error(*quorum)),
{
    match quorum {
        PercentageThreshold::Majority {} => Ok(()),
        PercentageThreshold::Percent(p) => {
            if p.atomics > DECIMAL_FRACTIONAL {
                Err(ThresholdError::UnreachableThreshold {})
            } else {
                Ok(())
            }
        },
    }
}

/// An absolute count of votes is valid when it is not zero.
pub fn validate_count(count: &u128) -> (res: Result<(), ThresholdError>)
    ensures
        res == (if *count == 0 {
            Err(ThresholdError::ZeroThreshold {})
        } else {
            Ok(())
        }),
{
    if *count == 0 {
        Err(ThresholdError::ZeroThreshold {})
    } else {
        Ok(())
    }
}

impl Threshold {
    /// Refuses thresholds that are zero or can never be reached.
    pub fn validate(&self) -> (res: Result<(), ThresholdError>)
        ensures
            res == as_result(threshold_error(*self)),
    {
        match self {
            Threshold::AbsolutePercentage { percentage } => validate_percentage(percentage),
            Threshold::ThresholdQuorum { threshold, quorum } => {
                match validate_percentage(threshold) {
                    Err(e) => Err(e),
                    Ok(()) => validate_quorum(quorum),
                }
            },
            Threshold::AbsoluteCount { threshold } => validate_count(threshold),
        }
    }
}

/// How a count of votes is compared with its threshold.
#[derive(Clone, Copy, Debug, PartialEq, Eq, Structural)]
pub enum VoteCmp {
    Greater,
    Geq,
}

/// The comparison of `votes` with `percentage` of `total_power`: both
/// sides are scaled by `PRECISION_FACTOR` and the scaled threshold is
/// rounded down.
pub open spec fn spec_compare_vote_count(
    votes: int,
    comparison: VoteCmp,
    total_power: int,
    percentage: int,
) -> bool {
    let threshold = (total_power * PRECISION_FACTOR * percentage) / (DECIMAL_FRACTIONAL as int);
    match comparison {
        VoteCmp::Greater => votes * PRECISION_FACTOR > threshold,
        VoteCmp::Geq => votes * PRECISION_FACTOR >= threshold,
    }
}

pub proof fn lemma_compare_vote_count(votes: int, total_power: int, percentage: int)
    requires
        0 <= votes,
        0 <= total_power,
        0 <= percentage,
    ensures
        spec_compare_vote_count(votes, VoteCmp::Geq, total_power, percentage) <==> total_power
            * percentage < votes * DECIMAL_FRACTIONAL + PRECISION_FACTOR,
        spec_compare_vote_count(votes, VoteCmp::Greater, total_power, percentage) <==> total_power
            * percentage < votes * DECIMAL_FRACTIONAL,
{
    let x = total_power * percentage;
    assert(total_power * 1_000_000_000 * percentage == x * 1_000_000_000) by (nonlinear_arith)
        requires
            x == total_power * percentage,
    ;
    assert(x >= 0) by (nonlinear_arith)
        requires
            0 <= total_power,
            0 <= percentage,
            x == total_power * percentage,
    ;
    vstd::arithmetic::div_mod::lemma_fundamental_div_mod(x, 1_000_000_000);
    let t = x / 1_000_000_000;
    let s = x % 1_000_000_000;
    assert(0 <= s < 1_000_000_000);
    assert(x * 1_000_000_000 == t * 1_000_000_000_000_000_000 + s * 1_000_000_000);
    vstd::arithmetic::div_mod::lemma_fundamental_div_mod_converse(
        x * 1_000_000_000,
        1_000_000_000_000_000_000,
        t,
        s * 1_000_000_000,
    );
}

/// Compares `votes` with `percentage` of `total_power`.
pub fn compare_vote_count(votes: u128, comparison: VoteCmp, total_power: u128, percentage: Decimal) -> (b:
    bool)
    ensures
        b == spec_compare_vote_count(
            votes as int,
            comparison,
            total_power as int,
            percentage.atomics as int,
        ),
{
    proof {
        lemma_compare_vote_count(votes as int, total_power as int, percentage.atomics as int);
    }
    let threshold = mul_wide(total_power, percentage.atomics);
    let scaled = mul_wide(votes, DECIMAL_FRACTIONAL);
    match comparison {
        VoteCmp::Greater => wide_lt(threshold, scaled),
        VoteCmp::Geq => {
            proof {
                assert(votes * DECIMAL_FRACTIONAL + PRECISION_FACTOR < crate::math::base128()
                    * crate::math::base128()) by (nonlinear_arith)
                    requires
                        votes < 0x1_0000_0000_0000_0000_0000_0000_0000_0000int,
                ;
            }
            let bound = wide_add(scaled, PRECISION_FACTOR);
            wide_lt(threshold, bound)
        },
    }
}

} // verus!
