//! Conversions from the state kept by the first version of the module
//! to the current one.
use crate::status::Status;
use crate::threshold::{Decimal, PercentageThreshold, Threshold};
use crate::voting::Votes;
use vstd::prelude::*;

verus! {

/// A passing percentage as the first version stored it.
#[derive(Clone, Copy, Debug, PartialEq, Eq, Structural)]
pub enum V1PercentageThreshold {
    Majority {},
    Percent(Decimal),
}

/// A threshold as the first version stored it.
#[allow(inconsistent_fields)]
#[derive(Clone, Copy, Debug, PartialEq, Eq, Structural)]
pub enum V1Threshold {
    AbsolutePercentage { percentage: V1PercentageThreshold },
    ThresholdQuorum { threshold: V1PercentageThreshold, quorum: V1PercentageThreshold },
    AbsoluteCount { threshold: u128 },
}

/// A tally as the first version stored it.
#[derive(Clone, Copy, Debug, PartialEq, Eq, Structural)]
pub struct V1Votes {
    pub yes: u128,
    pub no: u128,
    pub abstain: u128,
}

/// A status as the first version stored it.
#[derive(Clone, Copy, Debug, PartialEq, Eq, Structural)]
pub enum V1Status {
    Open,
    Rejected,
    Passed,
    Executed,
    Closed,
}

pub open spec fn spec_v1_percentage(v1: V1PercentageThreshold) -> PercentageThreshold {
    match v1 {
        V1PercentageThreshold::Majority {} => PercentageThreshold::Majority {},
        V1PercentageThreshold::Percent(p) => PercentageThreshold::Percent(p),
    }
}

pub fn v1_percentage_threshold_to_v2(v1: V1PercentageThreshold) -> (r: PercentageThreshold)
    ensures
        r == spec_v1_percentage(v1),
{
    match v1 {
        V1PercentageThreshold::Majority {} => PercentageThreshold::Majority {},
        V1PercentageThreshold::Percent(p) => PercentageThreshold::Percent(p),
    }
}

pub fn v1_threshold_to_v2(v1: V1Threshold) -> (r: Threshold)
    ensures
        r == match v1 {
            V1Threshold::AbsolutePercentage { percentage } => Threshold::AbsolutePercentage {
                percentage: spec_v1_percentage(percentage),
            },
            V1Threshold::ThresholdQuorum { threshold, quorum } => Threshold::ThresholdQuorum {
                threshold: spec_v1_percentage(threshold),
                quorum: spec_v1_percentage(quorum),
            },
            V1Threshold::AbsoluteCount { threshold } => Threshold::AbsoluteCount { threshold },
        },
{
    match v1 {
        V1Threshold::AbsolutePercentage { percentage } => Threshold::AbsolutePercentage {
            percentage: v1_percentage_threshold_to_v2(percentage),
        },
        V1Threshold::ThresholdQuorum { threshold, quorum } => Threshold::ThresholdQuorum {
            threshold: v1_percentage_threshold_to_v2(threshold),
            quorum: v1_percentage_threshold_to_v2(quorum),
        },
        V1Threshold::AbsoluteCount { threshold } => Threshold::AbsoluteCount { threshold },
    }
}

pub fn v1_votes_to_v2(v1: V1Votes) -> (r: Votes)
    ensures
        r == (Votes { yes: v1.yes, no: v1.no, abstain: v1.abstain }),
{
    Votes { yes: v1.yes, no: v1.no, abstain: v1.abstain }
}

pub fn v1_status_to_v2(v1: V1Status) -> (r: Status)
    ensures
        r == match v1 {
            V1Status::Open => Status::Open,
            V1Status::Rejected => Status::Rejected,
            V1Status::Passed => Status::Passed,
            V1Status::Executed => Status::Executed,
            V1Status::Closed => Status::Closed,
        },
{
    match v1 {
        V1Status::Open => Status::Open,
        V1Status::Rejected => Status::Rejected,
        V1Status::Passed => Status::Passed,
        V1Status::Executed => Status::Executed,
        V1Status::Closed => Status::Closed,
    }
}

} // verus!
