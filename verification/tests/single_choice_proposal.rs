use dao_contracts::expiration::{BlockInfo, Expiration, Timestamp};
use dao_contracts::proposal_single::proposal::Proposal;
use dao_contracts::status::Status;
use dao_contracts::threshold::{Decimal, PercentageThreshold, Threshold};
use dao_contracts::voting::Votes;

const HEIGHT: u64 = 12_345;

fn votes(yes: u128, no: u128, abstain: u128) -> Votes {
    Votes { yes, no, abstain }
}

/// `n / d` as a decimal, rounded down.
fn ratio(n: u128, d: u128) -> Decimal {
    Decimal { atomics: n * 1_000_000_000_000_000_000 / d }
}

fn setup_prop(threshold: Threshold, votes: Votes, total_power: u128, is_expired: bool, allow_revoting: bool) -> (Proposal, BlockInfo) {
    let block = BlockInfo {
        height: HEIGHT,
        time: Timestamp::from_nanos(1_571_797_419_879_305_533),
        chain_id: "cosmos-testnet-14002".to_string(),
    };
    let expiration = if is_expired { Expiration::AtHeight(HEIGHT - 5) } else { Expiration::AtHeight(HEIGHT + 100) };
    let prop = Proposal {
        title: "Demo".to_string(),
        description: "Info".to_string(),
        proposer: "test".to_string(),
        start_height: 100,
        min_voting_period: None,
        expiration,
        allow_revoting,
        msgs: vec![],
        status: Status::Open,
        threshold,
        total_power,
        votes,
        created: block.time,
        last_updated: block.time,
        deposit_info: None,
    };
    (prop, block)
}

fn check_is_passed(threshold: Threshold, votes: Votes, total_power: u128, is_expired: bool, allow_revoting: bool) -> bool {
    let (prop, block) = setup_prop(threshold, votes, total_power, is_expired, allow_revoting);
    prop.is_passed(&block)
}

fn check_is_rejected(threshold: Threshold, votes: Votes, total_power: u128, is_expired: bool, allow_revoting: bool) -> bool {
    let (prop, block) = setup_prop(threshold, votes, total_power, is_expired, allow_revoting);
    prop.is_rejected(&block)
}

#[test]
fn test_pass_majority_percentage() {
    let threshold = Threshold::AbsolutePercentage { percentage: PercentageThreshold::Majority {} };
    let v = votes(7, 4, 2);
    assert!(check_is_passed(threshold, v, 15, false, false));
    assert!(check_is_passed(threshold, v, 15, true, false));
    assert!(!check_is_passed(threshold, v, 17, false, false));
}

#[test]
fn test_revoting_majority_no_pass() {
    let threshold = Threshold::AbsolutePercentage { percentage: PercentageThreshold::Majority {} };
    let v = votes(7, 4, 2);
    assert!(!check_is_passed(threshold, v, 15, false, true));
    assert!(check_is_passed(threshold, v, 15, true, true));
}

#[test]
fn test_revoting_majority_rejection() {
    let threshold = Threshold::AbsolutePercentage { percentage: PercentageThreshold::Majority {} };
    let v = votes(4, 7, 2);
    assert!(!check_is_rejected(threshold, v, 15, false, true));
    assert!(check_is_rejected(threshold, v, 15, true, true));
}

#[test]
fn test_absolute_threshold() {
    let threshold = Threshold::AbsoluteCount { threshold: 10 };
    assert!(check_is_passed(threshold, votes(10, 0, 0), 100, false, false));
    assert!(check_is_rejected(threshold, votes(9, 1, 0), 10, false, false));
    assert!(!check_is_rejected(threshold, votes(9, 1, 0), 11, false, false));
    assert!(!check_is_passed(threshold, votes(9, 1, 0), 11, false, false));
}

#[test]
fn test_absolute_threshold_revoting() {
    let threshold = Threshold::AbsoluteCount { threshold: 10 };
    assert!(!check_is_passed(threshold, votes(10, 0, 0), 100, false, true));
    assert!(check_is_passed(threshold, votes(10, 0, 0), 100, true, true));
    assert!(!check_is_rejected(threshold, votes(9, 1, 0), 10, false, true));
    assert!(check_is_rejected(threshold, votes(9, 1, 0), 10, true, true));
}

#[test]
fn proposal_test_tricky_pass() {
    let threshold = Threshold::AbsolutePercentage { percentage: PercentageThreshold::Percent(ratio(7, 13)) };
    assert!(check_is_passed(threshold, votes(7, 6, 0), 13, false, false));
}

#[test]
fn test_weird_failure_rounding() {
    let threshold = Threshold::AbsolutePercentage { percentage: PercentageThreshold::Percent(ratio(6, 13)) };
    let v = votes(6, 7, 0);
    assert!(check_is_passed(threshold, v, 13, false, false));
    assert!(!check_is_rejected(threshold, v, 13, false, false));
}

#[test]
fn proposal_test_tricky_pass_majority() {
    let threshold = Threshold::AbsolutePercentage { percentage: PercentageThreshold::Majority {} };
    let v = votes(7, 6, 0);
    assert!(check_is_passed(threshold, v, 13, false, false));
    assert!(!check_is_passed(threshold, v, 14, false, false));
}

#[test]
fn test_reject_majority_percentage() {
    let percent = Threshold::AbsolutePercentage { percentage: PercentageThreshold::Majority {} };
    let v = votes(4, 7, 2);
    assert!(check_is_rejected(percent, v, 15, false, false));
    assert!(check_is_rejected(percent, v, 15, true, false));
    assert!(!check_is_rejected(percent, v, 17, false, false));
    assert!(!check_is_rejected(percent, v, 17, true, false));
    assert!(check_is_rejected(percent, v, 14, false, false));
    assert!(check_is_rejected(percent, v, 14, true, false));
}

#[test]
fn proposal_proposal_passed_quorum() {
    let quorum = Threshold::ThresholdQuorum {
        threshold: PercentageThreshold::Percent(Decimal::percent(50)),
        quorum: PercentageThreshold::Percent(Decimal::percent(40)),
    };
    let passing = votes(7, 3, 2);
    let passes_ignoring_abstain = votes(6, 6, 5);
    let failing = votes(6, 7, 2);

    assert!(check_is_passed(quorum, passing, 30, true, false));
    assert!(!check_is_passed(quorum, passing, 33, true, false));
    assert!(check_is_passed(quorum, passes_ignoring_abstain, 40, true, false));
    assert!(!check_is_passed(quorum, failing, 20, true, false));

    assert!(!check_is_passed(quorum, passing, 30, false, false));
    assert!(!check_is_passed(quorum, passes_ignoring_abstain, 40, false, false));
    assert!(check_is_passed(quorum, passing, 14, false, false));
    assert!(check_is_passed(quorum, passes_ignoring_abstain, 17, false, false));
    assert!(check_is_passed(quorum, passing, 16, false, false));
}

#[test]
fn proposal_proposal_rejected_quorum() {
    let quorum = Threshold::ThresholdQuorum {
        threshold: PercentageThreshold::Majority {},
        quorum: PercentageThreshold::Percent(Decimal::percent(40)),
    };
    let rejecting = votes(3, 8, 2);
    let rejected_ignoring_abstain = votes(4, 8, 5);
    let failing = votes(5, 8, 2);

    assert!(check_is_rejected(quorum, rejecting, 30, true, false));
    assert!(check_is_rejected(quorum, rejecting, 33, true, false));
    assert!(check_is_rejected(quorum, rejected_ignoring_abstain, 40, true, false));
    assert!(check_is_rejected(quorum, failing, 20, true, false));
    assert!(!check_is_rejected(quorum, failing, 20, false, false));

    assert!(!check_is_rejected(quorum, rejecting, 30, false, false));
    assert!(!check_is_rejected(quorum, rejected_ignoring_abstain, 40, false, false));
    assert!(check_is_rejected(quorum, rejecting, 14, false, false));
    assert!(check_is_rejected(quorum, rejected_ignoring_abstain, 17, false, false));
    assert!(check_is_rejected(quorum, rejecting, 16, false, false));
}

#[test]
fn proposal_quorum_edge_cases() {
    let quorum = Threshold::ThresholdQuorum {
        threshold: PercentageThreshold::Percent(Decimal::percent(60)),
        quorum: PercentageThreshold::Percent(Decimal::percent(80)),
    };
    let missing_voters = votes(9, 1, 0);
    assert!(!check_is_passed(quorum, missing_voters, 15, false, false));
    assert!(!check_is_passed(quorum, missing_voters, 15, true, false));

    let wait_til_expired = votes(8, 4, 0);
    assert!(!check_is_passed(quorum, wait_til_expired, 15, false, false));
    assert!(check_is_passed(quorum, wait_til_expired, 15, true, false));

    let passes_early = votes(9, 3, 0);
    assert!(check_is_passed(quorum, passes_early, 15, false, false));
    assert!(check_is_passed(quorum, passes_early, 15, true, false));
}

#[test]
fn never_both_passed_and_rejected() {
    // Just over a third of the votes, less abstentions, must be yes.
    let threshold = Threshold::AbsolutePercentage {
        percentage: PercentageThreshold::Percent(Decimal { atomics: 333_333_333_333_333_334 }),
    };
    assert!(check_is_passed(threshold, votes(1, 2, 0), 3, false, false));
    assert!(!check_is_rejected(threshold, votes(1, 2, 0), 3, false, false));
    // One more no vote out of four leaves too few yes votes possible.
    assert!(!check_is_passed(threshold, votes(1, 3, 0), 4, false, false));
    assert!(check_is_rejected(threshold, votes(1, 3, 0), 4, false, false));
}

#[test]
fn a_rejected_proposal_stays_unable_to_pass() {
    let threshold = Threshold::AbsolutePercentage { percentage: PercentageThreshold::Percent(Decimal::percent(50)) };
    assert!(check_is_rejected(threshold, votes(0, 6, 0), 10, false, false));
    // Every way of casting the four votes still outstanding.
    for yes in 0..=4u128 {
        for abstain in 0..=(4 - yes) {
            let no = 6 + (4 - yes - abstain);
            assert!(!check_is_passed(threshold, votes(yes, no, abstain), 10, false, false));
        }
    }
}
