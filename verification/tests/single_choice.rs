use dao_contracts::expiration::{BlockInfo, Duration, Timestamp};
use dao_contracts::proposal_single::contract::{instantiate, pre_propose_instantiation_reply, InstantiateMsg, TaggedReplyId};
use dao_contracts::proposal_single::error::ContractError;
use dao_contracts::proposal_single::proposal::{advance_proposal_id, does_vote_count_fail, does_vote_count_pass};
use dao_contracts::proposal_single::state::{Ballot, Bound, ModuleState, Order, PreProposeInfo};
use dao_contracts::proposal_single::utils::validate_voting_period;
use dao_contracts::reply::ReplyError;
use dao_contracts::status::Status;
use dao_contracts::threshold::{compare_vote_count, validate_percentage, Decimal, PercentageThreshold, Threshold, ThresholdError, VoteCmp};
use dao_contracts::voting::Vote;

fn block(height: u64) -> BlockInfo {
    BlockInfo { height, time: Timestamp::from_nanos(1571797419879305533), chain_id: "cosmos-testnet-14002".to_string() }
}

fn module(threshold: Threshold, allow_revoting: bool) -> ModuleState {
    instantiate(
        "dao".to_string(),
        "proposal_module".to_string(),
        InstantiateMsg {
            threshold,
            max_voting_period: Duration::Height(6),
            min_voting_period: None,
            only_members_execute: false,
            allow_revoting,
            close_proposal_on_execution_failure: false,
            pre_propose_info: PreProposeInfo::AnyoneMayPropose {},
        },
    )
    .unwrap()
    .0
}

fn propose(m: &mut ModuleState, total_power: u128) -> u64 {
    m.execute_propose(&"proposer".to_string(), "title".to_string(), "description".to_string(), &vec![], &block(100), true, total_power, 10)
        .unwrap()
        .0
}

#[test]
fn vote_counts_with_exact_percentages() {
    assert!(does_vote_count_pass(51, 100, PercentageThreshold::Majority {}));
    assert!(!does_vote_count_pass(50, 100, PercentageThreshold::Majority {}));
    assert!(!does_vote_count_pass(0, 0, PercentageThreshold::Majority {}));
    assert!(does_vote_count_fail(50, 100, PercentageThreshold::Majority {}));
    assert!(does_vote_count_fail(0, 0, PercentageThreshold::Majority {}));
    // 1% of 1 vote rounds the threshold down: one vote is enough.
    assert!(does_vote_count_pass(1, 1, PercentageThreshold::Percent(Decimal::percent(1))));
    assert!(!does_vote_count_pass(59, 100, PercentageThreshold::Percent(Decimal::percent(60))));
    assert!(does_vote_count_pass(60, 100, PercentageThreshold::Percent(Decimal::percent(60))));
    assert!(does_vote_count_fail(41, 100, PercentageThreshold::Percent(Decimal::percent(60))));
    assert!(!does_vote_count_fail(40, 100, PercentageThreshold::Percent(Decimal::percent(60))));
    assert!(compare_vote_count(u128::MAX, VoteCmp::Geq, u128::MAX, Decimal::one()));
    assert!(!compare_vote_count(u128::MAX, VoteCmp::Greater, u128::MAX, Decimal::one()));
}

#[test]
fn more_yes_votes_never_unpass() {
    let p = PercentageThreshold::Percent(Decimal::percent(33));
    let mut passed = false;
    for yes in 0..=100u128 {
        let now = does_vote_count_pass(yes, 100, p);
        assert!(!passed || now);
        passed = now;
    }
    assert!(passed);
}

#[test]
fn thresholds_are_validated() {
    assert_eq!(validate_percentage(&PercentageThreshold::Percent(Decimal::zero())), Err(ThresholdError::ZeroThreshold {}));
    assert_eq!(
        validate_percentage(&PercentageThreshold::Percent(Decimal::percent(101))),
        Err(ThresholdError::UnreachableThreshold {})
    );
    assert_eq!(validate_percentage(&PercentageThreshold::Percent(Decimal::percent(100))), Ok(()));
    assert_eq!(Threshold::AbsoluteCount { threshold: 0 }.validate(), Err(ThresholdError::ZeroThreshold {}));
    assert_eq!(
        validate_voting_period(Some(Duration::Time(1)), Duration::Height(5)),
        Err(ContractError::DurationUnitsConflict {})
    );
    assert_eq!(
        validate_voting_period(Some(Duration::Height(6)), Duration::Height(5)),
        Err(ContractError::InvalidMinVotingPeriod {})
    );
    assert_eq!(
        validate_voting_period(Some(Duration::Height(5)), Duration::Height(5)),
        Ok((Some(Duration::Height(5)), Duration::Height(5)))
    );
}

#[test]
fn votes_tally_and_revote() {
    let mut m = module(Threshold::AbsolutePercentage { percentage: PercentageThreshold::Majority {} }, true);
    let id = propose(&mut m, 100);
    assert_eq!(m.execute_vote(&"a".to_string(), id, Vote::Yes, 30, &block(101)).map(|r| r.0), Ok(Status::Open));
    assert_eq!(m.execute_vote(&"b".to_string(), id, Vote::No, 20, &block(101)).map(|r| r.0), Ok(Status::Open));
    // A revote moves the voter's power.
    assert_eq!(m.execute_vote(&"b".to_string(), id, Vote::Yes, 20, &block(101)).map(|r| r.0), Ok(Status::Open));
    assert_eq!(
        m.execute_vote(&"b".to_string(), id, Vote::Yes, 20, &block(101)).map(|r| r.0),
        Err(ContractError::AlreadyCast {})
    );
    // With revoting allowed a proposal only passes once voting ends.
    assert_eq!(m.execute_vote(&"c".to_string(), id, Vote::Yes, 1, &block(101)).map(|r| r.0), Ok(Status::Open));
    assert_eq!(m.query_proposal(id, &block(106)).unwrap().proposal.status, Status::Passed);
    let p = m.query_proposal(id, &block(101)).unwrap().proposal;
    assert_eq!(p.votes.yes, 51);
    assert_eq!(p.votes.no, 0);
    let v = m.query_vote(id, &"b".to_string()).unwrap();
    assert_eq!(v.vote, Vote::Yes);
    assert_eq!(v.power, 20);
    assert_eq!(
        m.execute_vote(&"d".to_string(), id, Vote::Yes, 5, &block(106)).map(|r| r.0),
        Err(ContractError::NotOpen { id })
    );
}

#[test]
fn no_revote_without_permission() {
    let mut m = module(Threshold::AbsolutePercentage { percentage: PercentageThreshold::Majority {} }, false);
    let id = propose(&mut m, 100);
    m.execute_vote(&"a".to_string(), id, Vote::No, 10, &block(101)).unwrap();
    assert_eq!(m.execute_vote(&"a".to_string(), id, Vote::Yes, 10, &block(101)).map(|r| r.0), Err(ContractError::AlreadyVoted {}));
    assert_eq!(m.execute_vote(&"z".to_string(), id, Vote::Yes, 0, &block(101)).map(|r| r.0), Err(ContractError::NotRegistered {}));
    assert_eq!(m.execute_vote(&"z".to_string(), 9, Vote::Yes, 1, &block(101)).map(|r| r.0), Err(ContractError::NoSuchProposal { id: 9 }));
}

#[test]
fn list_votes_ascending_after_a_voter() {
    let mut m = module(Threshold::AbsolutePercentage { percentage: PercentageThreshold::Majority {} }, false);
    let id = propose(&mut m, 1000);
    for (who, power) in [("carol", 3u128), ("alice", 1), ("bob", 2)] {
        m.execute_vote(&who.to_string(), id, Vote::Abstain, power, &block(101)).unwrap();
    }
    let voters: Vec<String> = m.query_list_votes(id, None, None).into_iter().map(|v| v.voter).collect();
    assert_eq!(voters, vec!["alice", "bob", "carol"]);
    let after: Vec<String> = m.query_list_votes(id, Some("alice".to_string()), Some(1)).into_iter().map(|v| v.voter).collect();
    assert_eq!(after, vec!["bob"]);
    assert!(m.query_list_votes(42, None, None).is_empty());
}

#[test]
fn ballots_by_wallet() {
    let mut m = module(Threshold::AbsolutePercentage { percentage: PercentageThreshold::Majority {} }, false);
    for _ in 0..3 {
        propose(&mut m, 1000);
    }
    m.execute_vote(&"w".to_string(), 1, Vote::Yes, 5, &block(101)).unwrap();
    m.execute_vote(&"w".to_string(), 3, Vote::No, 5, &block(101)).unwrap();
    let asc = m.ballots.range_by_wallet(&"w".to_string(), None, None, Order::Ascending);
    assert_eq!(asc, vec![(1, Ballot { power: 5, vote: Vote::Yes }), (3, Ballot { power: 5, vote: Vote::No })]);
    let desc = m.ballots.range_by_wallet(&"w".to_string(), Some(Bound::Exclusive(1)), None, Order::Descending);
    assert_eq!(desc, vec![(3, Ballot { power: 5, vote: Vote::No })]);
    assert_eq!(m.ballots.may_load((3, "w".to_string())), Some(Ballot { power: 5, vote: Vote::No }));
    assert_eq!(m.ballots.may_load((2, "w".to_string())), None);
    assert_eq!(m.ballots.may_load((0, "w".to_string())), None);
}

#[test]
fn proposal_ids_advance() {
    let mut count = 0u64;
    assert_eq!(advance_proposal_id(&mut count), 1);
    assert_eq!(advance_proposal_id(&mut count), 2);
    assert_eq!(count, 2);
}

#[test]
fn pre_propose_reply_names_the_module() {
    let mut data = vec![0x0a, 7];
    data.extend_from_slice(b"prepose");
    match pre_propose_instantiation_reply(&Ok(Some(data))) {
        Ok(TaggedReplyId::PreProposeModuleInstantiation(addr)) => assert_eq!(addr, "prepose"),
        _ => panic!("the reply names the module"),
    }
    match pre_propose_instantiation_reply(&Ok(None)) {
        Err(e) => assert_eq!(e, ContractError::Reply(ReplyError::MissingData {})),
        Ok(_) => panic!("a reply without data names nothing"),
    }
}
