use dao_contracts::expiration::{BlockInfo, Duration, Expiration, Timestamp};
use dao_contracts::proposal_single::contract::{instantiate, InstantiateMsg, UpdateConfigMsg};
use dao_contracts::proposal_single::msg::ShouldExecute;
use dao_contracts::proposal_single::state::{ModuleState, PreProposeInfo, ProposalCreationPolicy, VoteInfo};
use dao_contracts::status::Status;
use dao_contracts::threshold::{Decimal, PercentageThreshold, Threshold};
use dao_contracts::voting::{Vote, Votes};

const CREATOR_ADDR: &str = "creator";
const DAO: &str = "dao";

fn block() -> BlockInfo {
    BlockInfo { height: 12_345, time: Timestamp::from_nanos(1_571_797_419_879_305_533), chain_id: "cosmos-testnet-14002".to_string() }
}

fn module_with(threshold: Threshold) -> ModuleState {
    instantiate(
        DAO.to_string(),
        "proposal_module".to_string(),
        InstantiateMsg {
            threshold,
            max_voting_period: Duration::Height(6),
            min_voting_period: None,
            only_members_execute: false,
            allow_revoting: false,
            close_proposal_on_execution_failure: false,
            pre_propose_info: PreProposeInfo::AnyoneMayPropose {},
        },
    )
    .unwrap()
    .0
}

/// A vote of a scenario: who votes, the position, the voter's balance
/// of the voting token, and whether the vote must be accepted.
struct TestVote {
    voter: String,
    position: Vote,
    weight: u128,
    should_execute: ShouldExecute,
}

fn tv(voter: &str, position: Vote, weight: u128, should_execute: ShouldExecute) -> TestVote {
    TestVote { voter: voter.to_string(), position, weight, should_execute }
}

/// Creates a proposal whose total power is the sum of the voters'
/// balances (or `total_supply`, the rest held by someone who does not
/// vote), casts the votes, and checks each vote and the final status.
/// A voter listed twice holds the balance of one listing while the
/// total counts both, as the token's initial balances did.
fn do_test_votes(votes: Vec<TestVote>, threshold: Threshold, expected_status: Status, total_supply: Option<u128>) -> ModuleState {
    let listed: u128 = votes.iter().map(|v| v.weight).fold(0u128, |a, w| a.saturating_add(w));
    let total_power = total_supply.unwrap_or(listed);
    let power_of = |who: &str| votes.iter().rev().find(|v| v.voter == who).map(|v| v.weight).unwrap_or(0);
    let proposer = votes.first().expect("a scenario has at least one vote").voter.clone();
    assert!(power_of(&proposer) > 0);

    let mut module = module_with(threshold);
    let block = block();
    let id = module
        .execute_propose(&proposer, "A simple text proposal".to_string(), "This is a simple text proposal".to_string(), &vec![], &block, true, total_power, 100)
        .unwrap()
        .0;
    assert_eq!(id, 1);

    for v in &votes {
        let res = module.execute_vote(&v.voter, 1, v.position, power_of(&v.voter), &block);
        match v.should_execute {
            ShouldExecute::Yes => {
                assert!(res.is_ok());
                let recorded = module.query_vote(1, &v.voter);
                assert_eq!(
                    recorded,
                    Some(VoteInfo { voter: v.voter.clone(), vote: v.position, power: power_of(&v.voter) })
                );
            }
            ShouldExecute::No => assert!(res.is_err()),
            ShouldExecute::Meh => {}
        }
    }
    let proposal = module.query_proposal(1, &block).unwrap();
    assert_eq!(proposal.proposal.status, expected_status);
    module
}

fn percent(p: u64) -> PercentageThreshold {
    PercentageThreshold::Percent(Decimal::percent(p))
}

#[test]
fn tests_test_propose() {
    let threshold = Threshold::AbsolutePercentage { percentage: PercentageThreshold::Majority {} };
    let mut module = module_with(threshold);
    let config = module.query_config();
    assert_eq!(config.threshold, threshold);
    assert_eq!(config.max_voting_period, Duration::Height(6));
    assert!(!config.only_members_execute);
    assert_eq!(config.dao, DAO);

    let block = block();
    module
        .execute_propose(
            &CREATOR_ADDR.to_string(),
            "A simple text proposal".to_string(),
            "This is a simple text proposal".to_string(),
            &vec![],
            &block,
            true,
            100_000_000,
            100,
        )
        .unwrap();
    let created = module.query_proposal(1, &block).unwrap();
    assert_eq!(created.id, 1);
    let p = created.proposal;
    assert_eq!(p.title, "A simple text proposal");
    assert_eq!(p.description, "This is a simple text proposal");
    assert_eq!(p.proposer, CREATOR_ADDR);
    assert_eq!(p.start_height, block.height);
    assert_eq!(p.expiration, Expiration::AtHeight(block.height + 6));
    assert_eq!(p.threshold, threshold);
    assert_eq!(p.total_power, 100_000_000);
    assert!(p.msgs.is_empty());
    assert_eq!(p.status, Status::Open);
    assert_eq!(p.votes, Votes { yes: 0, no: 0, abstain: 0 });
    assert_eq!(p.deposit_info, None);
}

#[test]
fn single_test_vote_simple() {
    let t = Threshold::AbsolutePercentage { percentage: percent(100) };
    do_test_votes(vec![tv("ekez", Vote::Yes, 10, ShouldExecute::Yes)], t, Status::Passed, None);
    do_test_votes(vec![tv("ekez", Vote::No, 10, ShouldExecute::Yes)], t, Status::Rejected, None);
}

#[test]
fn test_vote_no_overflow() {
    do_test_votes(
        vec![tv("ekez", Vote::Yes, u128::MAX, ShouldExecute::Yes)],
        Threshold::AbsolutePercentage { percentage: percent(100) },
        Status::Passed,
        None,
    );
}

#[test]
fn test_vote_abstain_only() {
    do_test_votes(
        vec![tv("ekez", Vote::Abstain, u128::MAX, ShouldExecute::Yes)],
        Threshold::AbsolutePercentage { percentage: percent(100) },
        Status::Rejected,
        None,
    );
    for i in 0..101 {
        do_test_votes(
            vec![tv("ekez", Vote::Abstain, u128::MAX, ShouldExecute::Yes)],
            Threshold::ThresholdQuorum { threshold: percent(100), quorum: percent(i) },
            Status::Rejected,
            None,
        );
    }
}

#[test]
fn test_single_no() {
    do_test_votes(
        vec![tv("ekez", Vote::No, 1, ShouldExecute::Yes)],
        Threshold::AbsolutePercentage { percentage: percent(100) },
        Status::Rejected,
        Some(u128::MAX),
    );
}

#[test]
fn test_tricky_rounding() {
    let t = Threshold::AbsolutePercentage { percentage: percent(1) };
    do_test_votes(vec![tv("ekez", Vote::Yes, 1, ShouldExecute::Yes)], t, Status::Passed, None);
    do_test_votes(vec![tv("ekez", Vote::Abstain, 1, ShouldExecute::Yes)], t, Status::Rejected, None);
}

#[test]
fn test_no_double_votes() {
    do_test_votes(
        vec![tv("ekez", Vote::Abstain, 2, ShouldExecute::Yes), tv("ekez", Vote::Yes, 2, ShouldExecute::No)],
        Threshold::AbsolutePercentage { percentage: percent(100) },
        Status::Open,
        None,
    );
}

#[test]
fn test_close_votes() {
    let t = Threshold::AbsolutePercentage { percentage: percent(50) };
    do_test_votes(
        vec![
            tv("ekez", Vote::Abstain, 10, ShouldExecute::Yes),
            tv("keze", Vote::No, 5, ShouldExecute::Yes),
            tv("ezek", Vote::Yes, 5, ShouldExecute::Yes),
        ],
        t,
        Status::Passed,
        None,
    );
    do_test_votes(
        vec![
            tv("ekez", Vote::Abstain, 10, ShouldExecute::Yes),
            tv("keze", Vote::Yes, 5, ShouldExecute::Yes),
            tv("ezek", Vote::No, 5, ShouldExecute::No),
        ],
        t,
        Status::Passed,
        None,
    );
}

#[test]
fn test_close_votes_quorum() {
    do_test_votes(
        vec![
            tv("ekez", Vote::No, 10, ShouldExecute::Yes),
            tv("keze", Vote::Yes, 5, ShouldExecute::Yes),
            tv("ezek", Vote::No, 10, ShouldExecute::No),
        ],
        Threshold::ThresholdQuorum { threshold: percent(10), quorum: PercentageThreshold::Majority {} },
        Status::Passed,
        None,
    );
}

#[test]
fn test_majority_vs_half() {
    do_test_votes(
        vec![tv("ekez", Vote::No, 10, ShouldExecute::Yes), tv("keze", Vote::Yes, 10, ShouldExecute::Yes)],
        Threshold::ThresholdQuorum { threshold: percent(50), quorum: PercentageThreshold::Majority {} },
        Status::Passed,
        None,
    );
    do_test_votes(
        vec![tv("ekez", Vote::No, 10, ShouldExecute::Yes), tv("keze", Vote::Yes, 10, ShouldExecute::No)],
        Threshold::ThresholdQuorum { threshold: PercentageThreshold::Majority {}, quorum: PercentageThreshold::Majority {} },
        Status::Rejected,
        None,
    );
}

#[test]
fn test_pass_threshold_not_quorum() {
    let t = Threshold::ThresholdQuorum { threshold: PercentageThreshold::Majority {}, quorum: percent(60) };
    do_test_votes(vec![tv("ekez", Vote::Yes, 59, ShouldExecute::Yes)], t, Status::Open, Some(100));
    do_test_votes(vec![tv("ekez", Vote::No, 59, ShouldExecute::Yes)], t, Status::Rejected, Some(100));
}

#[test]
fn test_pass_threshold_exactly_quorum() {
    let t = Threshold::ThresholdQuorum { threshold: PercentageThreshold::Majority {}, quorum: percent(60) };
    do_test_votes(vec![tv("ekez", Vote::Yes, 60, ShouldExecute::Yes)], t, Status::Passed, Some(100));
    do_test_votes(
        vec![tv("ekez", Vote::Yes, 59, ShouldExecute::Yes), tv("keze", Vote::No, 1, ShouldExecute::Yes)],
        t,
        Status::Passed,
        Some(100),
    );
    do_test_votes(vec![tv("ekez", Vote::No, 60, ShouldExecute::Yes)], t, Status::Rejected, Some(100));
}

/// A small deterministic generator of pseudo-random numbers.
struct XorShift(u64);

impl XorShift {
    fn next(&mut self) -> u64 {
        let mut x = self.0;
        x ^= x << 13;
        x ^= x >> 7;
        x ^= x << 17;
        self.0 = x;
        x
    }

    /// A number in `low..high`.
    fn between(&mut self, low: u64, high: u64) -> u64 {
        low + self.next() % (high - low)
    }
}

#[test]
fn fuzz_voting() {
    let mut rng = XorShift(0x9E37_79B9_7F4A_7C15);
    for _ in 0..25 {
        let yes: Vec<u64> = (0..50).map(|_| rng.between(1, 200)).collect();
        let no: Vec<u64> = (0..50).map(|_| rng.between(1, 200)).collect();
        let yes_sum: u64 = yes.iter().sum();
        let no_sum: u64 = no.iter().sum();
        let expected_status = if yes_sum > no_sum { Status::Passed } else { Status::Rejected };

        let mut votes: Vec<TestVote> = Vec::new();
        for (idx, w) in yes.into_iter().enumerate() {
            votes.push(tv(&format!("yes_{}", idx), Vote::Yes, w as u128, ShouldExecute::Meh));
        }
        for (idx, w) in no.into_iter().enumerate() {
            votes.push(tv(&format!("no_{}", idx), Vote::No, w as u128, ShouldExecute::Meh));
        }
        for i in (1..votes.len()).rev() {
            let j = (rng.next() % (i as u64 + 1)) as usize;
            votes.swap(i, j);
        }
        do_test_votes(votes, Threshold::AbsolutePercentage { percentage: PercentageThreshold::Majority {} }, expected_status, None);
    }
}

#[test]
fn tests_test_close_open_proposal() {
    let mut m = do_test_votes(
        vec![tv("ekez", Vote::No, 10, ShouldExecute::Yes)],
        Threshold::AbsolutePercentage { percentage: percent(90) },
        Status::Open,
        Some(100),
    );
    let mut b = block();
    // Still open and not expired: it can not be closed.
    m.execute_close(1, &b).unwrap_err();
    b.height += 10;
    // Expired without passing: it can be closed.
    // The status stored before closing is handed back.
    assert_eq!(m.execute_close(1, &b).unwrap().0, Status::Open);
    assert_eq!(m.query_proposal(1, &b).unwrap().proposal.status, Status::Closed);
}

#[test]
fn single_test_update_config() {
    let mut m = do_test_votes(
        vec![tv("ekez", Vote::No, 10, ShouldExecute::Yes)],
        Threshold::AbsolutePercentage { percentage: percent(90) },
        Status::Rejected,
        None,
    );
    let config = m.query_config();
    assert_eq!(config.threshold, Threshold::AbsolutePercentage { percentage: percent(90) });
    let dao = config.dao.clone();

    let updated = || dao_contracts::proposal_single::state::Config {
        threshold: Threshold::AbsolutePercentage { percentage: PercentageThreshold::Majority {} },
        max_voting_period: Duration::Height(10),
        min_voting_period: None,
        only_members_execute: false,
        allow_revoting: false,
        dao: CREATOR_ADDR.to_string(),
        close_proposal_on_execution_failure: false,
        proposal_creation_policy: ProposalCreationPolicy::Anyone {},
    };
    let update = || UpdateConfigMsg {
        threshold: Threshold::AbsolutePercentage { percentage: PercentageThreshold::Majority {} },
        max_voting_period: Duration::Height(10),
        min_voting_period: None,
        only_members_execute: false,
        allow_revoting: false,
        dao: CREATOR_ADDR.to_string(),
        close_proposal_on_execution_failure: false,
        pre_propose_info: PreProposeInfo::AnyoneMayPropose {},
    };
    let module = "proposal_module".to_string();
    m.execute_update_config(&"ekez".to_string(), module.clone(), update()).unwrap_err();
    m.execute_update_config(&dao, module.clone(), update()).unwrap();
    assert_eq!(m.query_config(), updated());
    // The DAO address changed: the old one may no longer update.
    m.execute_update_config(&dao, module, update()).unwrap_err();
}

#[test]
fn test_absolute_count_threshold_non_multisig() {
    do_test_votes(
        vec![
            tv("one", Vote::Yes, 10, ShouldExecute::Yes),
            tv("two", Vote::No, 200, ShouldExecute::Yes),
            tv("three", Vote::Yes, 1, ShouldExecute::Yes),
        ],
        Threshold::AbsoluteCount { threshold: 11 },
        Status::Passed,
        None,
    );
}

#[test]
fn test_large_absolute_count_threshold() {
    // Rejected as soon as the first no vote is cast.
    do_test_votes(
        vec![tv("two", Vote::No, 1, ShouldExecute::Yes), tv("one", Vote::Yes, u128::MAX - 1, ShouldExecute::No)],
        Threshold::AbsoluteCount { threshold: u128::MAX },
        Status::Rejected,
        None,
    );
    do_test_votes(
        vec![tv("one", Vote::Yes, u128::MAX - 1, ShouldExecute::Yes), tv("two", Vote::No, 1, ShouldExecute::Yes)],
        Threshold::AbsoluteCount { threshold: u128::MAX },
        Status::Rejected,
        None,
    );
}
