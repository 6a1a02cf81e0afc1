use dao_contracts::expiration::{BlockInfo, Duration, Timestamp};
use dao_contracts::proposal_multiple::contract::{instantiate, InstantiateMsg, ModuleState};
use dao_contracts::proposal_multiple::error::ContractError;
use dao_contracts::proposal_multiple::state::{MultipleChoiceOption, MultipleChoiceOptions};
use dao_contracts::proposal_multiple::voting_strategy::VotingStrategy;
use dao_contracts::proposal_single::msg::ShouldExecute;
use dao_contracts::status::Status;
use dao_contracts::threshold::{Decimal, PercentageThreshold};
use dao_contracts::voting::MultipleChoiceVote;

/// A vote of a scenario: who votes, for which option, with how much
/// voting power, and whether the vote must be accepted.
struct TestMultipleChoiceVote {
    voter: String,
    position: MultipleChoiceVote,
    weight: u128,
    should_execute: ShouldExecute,
}

fn vote(voter: &str, option_id: u32, weight: u128, should_execute: ShouldExecute) -> TestMultipleChoiceVote {
    TestMultipleChoiceVote {
        voter: voter.to_string(),
        position: MultipleChoiceVote { option_id },
        weight,
        should_execute,
    }
}

fn start_block() -> BlockInfo {
    BlockInfo {
        height: 12345,
        time: Timestamp::from_nanos(1571797419879305533),
        chain_id: "cosmos-testnet-14002".to_string(),
    }
}

fn single_choice(quorum: PercentageThreshold) -> VotingStrategy {
    VotingStrategy::SingleChoice { quorum }
}

/// Creates a proposal with two options, casts the votes, optionally lets
/// the proposal expire, and checks its final status. Each voter holds the
/// weight of its last entry; the total power is the sum of all weights,
/// topped up to `total_supply` where one is given.
fn do_test_votes(
    votes: Vec<TestMultipleChoiceVote>,
    voting_strategy: VotingStrategy,
    expected_status: Status,
    total_supply: Option<u128>,
    should_expire: bool,
) -> ModuleState {
    let mut balances: Vec<(String, u128)> = Vec::new();
    let mut supply: u128 = 0;
    for v in votes.iter() {
        supply += v.weight;
        match balances.iter_mut().find(|(a, _)| *a == v.voter) {
            Some(entry) => entry.1 = v.weight,
            None => balances.push((v.voter.clone(), v.weight)),
        }
    }
    let total_power = match total_supply {
        Some(t) => t,
        None => supply,
    };
    let power_of = |who: &str| -> u128 {
        balances.iter().find(|(a, _)| a == who).map(|(_, w)| *w).unwrap_or(0)
    };

    let mut module = instantiate(
        "dao".to_string(),
        InstantiateMsg {
            voting_strategy,
            min_voting_period: None,
            max_voting_period: Duration::Height(6),
            only_members_execute: false,
            deposit_info: None,
        },
    )
    .unwrap();

    let proposer = votes.first().expect("a scenario has at least one vote").voter.clone();
    let mut block = start_block();
    let options = MultipleChoiceOptions {
        options: vec![
            MultipleChoiceOption { description: "multiple choice option 1".to_string(), msgs: None },
            MultipleChoiceOption { description: "multiple choice option 2".to_string(), msgs: None },
        ],
    };
    let id = module
        .execute_propose(
            &proposer,
            "A simple text proposal".to_string(),
            "A simple text proposal".to_string(),
            options,
            &block,
            power_of(&proposer),
            true,
            total_power,
        )
        .unwrap();
    assert_eq!(id, 1);

    for v in votes {
        let res = module.execute_vote(&v.voter, 1, v.position, power_of(&v.voter), &block);
        match v.should_execute {
            ShouldExecute::Yes => {
                assert!(res.is_ok(), "vote of {} refused: {:?}", v.voter, res);
                let info = module.query_vote(1, &v.voter).expect("the vote is recorded");
                assert_eq!(info.voter, v.voter);
                assert_eq!(info.vote, v.position);
                assert_eq!(info.power, v.weight);
            }
            ShouldExecute::No => assert!(res.is_err()),
            ShouldExecute::Meh => {}
        }
    }

    if should_expire {
        block.height += 100;
    }
    let status = module.query_proposal(1, &block).unwrap();
    assert_eq!(status, expected_status);
    module
}

/// A small deterministic generator of pseudo-random numbers.
struct XorShift(u64);

impl XorShift {
    fn next(&mut self) -> u64 {
        let mut x = self.0;
        x ^= x << 13;
        x ^= x >> 7;
        x ^= x << 17;
        self.0 = x;
        x
    }

    /// A number in `low..high`.
    fn between(&mut self, low: u64, high: u64) -> u64 {
        low + self.next() % (high - low)
    }
}

#[test]
fn tests_test_vote_simple() {
    do_test_votes(
        vec![vote("bluenote", 0, 10, ShouldExecute::Yes)],
        single_choice(PercentageThreshold::Percent(Decimal::percent(100))),
        Status::Passed,
        None,
        false,
    );
    do_test_votes(
        vec![vote("bluenote", 2, 10, ShouldExecute::Yes)],
        single_choice(PercentageThreshold::Percent(Decimal::percent(100))),
        Status::Rejected,
        None,
        false,
    );
}

#[test]
fn test_vote_out_of_bounds() {
    do_test_votes(
        vec![vote("bluenote", 10, 10, ShouldExecute::No)],
        single_choice(PercentageThreshold::Percent(Decimal::percent(100))),
        Status::Open,
        None,
        false,
    );
}

fn vote_no_overflow_scenarios() {
    do_test_votes(
        vec![vote("bluenote", 0, u128::MAX, ShouldExecute::Yes)],
        single_choice(PercentageThreshold::Percent(Decimal::percent(100))),
        Status::Passed,
        None,
        false,
    );
    do_test_votes(
        vec![vote("bluenote", 0, 1, ShouldExecute::Yes), vote("bob", 1, u128::MAX - 1, ShouldExecute::Yes)],
        single_choice(PercentageThreshold::Percent(Decimal::percent(100))),
        Status::Passed,
        None,
        false,
    );
}

#[test]
fn test_no_overflow() {
    vote_no_overflow_scenarios();
}

#[test]
fn test_quorum_not_met() {
    vote_no_overflow_scenarios();
}

#[test]
fn test_votes_tied() {
    do_test_votes(
        vec![vote("bluenote", 0, 1, ShouldExecute::Yes), vote("bob", 1, 1, ShouldExecute::Yes)],
        single_choice(PercentageThreshold::Percent(Decimal::percent(100))),
        Status::Rejected,
        None,
        false,
    );
}

#[test]
fn test_votes_none_of_the_above() {
    do_test_votes(
        vec![vote("bluenote", 2, u64::MAX as u128, ShouldExecute::Yes)],
        single_choice(PercentageThreshold::Percent(Decimal::percent(100))),
        Status::Rejected,
        None,
        false,
    );
    for i in 0..101 {
        do_test_votes(
            vec![vote("bluenote", 2, u64::MAX as u128, ShouldExecute::Yes)],
            single_choice(PercentageThreshold::Percent(Decimal::percent(i))),
            Status::Rejected,
            None,
            false,
        );
    }
}

#[test]
fn test_rounding() {
    do_test_votes(
        vec![vote("bluenote", 0, 1, ShouldExecute::Yes)],
        single_choice(PercentageThreshold::Percent(Decimal::percent(1))),
        Status::Passed,
        Some(100),
        true,
    );
    do_test_votes(
        vec![vote("bluenote", 0, 10, ShouldExecute::Yes)],
        single_choice(PercentageThreshold::Percent(Decimal::percent(1))),
        Status::Passed,
        Some(1000),
        true,
    );
    do_test_votes(
        vec![vote("bluenote", 1, 9999999, ShouldExecute::Yes)],
        single_choice(PercentageThreshold::Percent(Decimal::percent(1))),
        Status::Rejected,
        Some(1000000000),
        true,
    );
    do_test_votes(
        vec![vote("bluenote", 2, 1, ShouldExecute::Yes)],
        single_choice(PercentageThreshold::Percent(Decimal::percent(1))),
        Status::Rejected,
        None,
        false,
    );
}

#[test]
fn test_no_double_vote() {
    do_test_votes(
        vec![vote("bluenote", 1, 2, ShouldExecute::Yes), vote("bluenote", 1, 2, ShouldExecute::No)],
        single_choice(PercentageThreshold::Percent(Decimal::percent(100))),
        Status::Open,
        Some(10),
        false,
    );
}

#[test]
fn test_majority_half() {
    do_test_votes(
        vec![vote("bluenote", 0, 10, ShouldExecute::Yes), vote("blue", 0, 10, ShouldExecute::Yes)],
        single_choice(PercentageThreshold::Percent(Decimal::percent(50))),
        Status::Passed,
        Some(40),
        true,
    );
    do_test_votes(
        vec![vote("bluenote", 0, 10, ShouldExecute::Yes), vote("blue", 0, 10, ShouldExecute::Yes)],
        single_choice(PercentageThreshold::Majority {}),
        Status::Rejected,
        Some(40),
        true,
    );
}

#[test]
fn test_pass_exact_quorum() {
    do_test_votes(
        vec![vote("bluenote", 0, 60, ShouldExecute::Yes)],
        single_choice(PercentageThreshold::Percent(Decimal::percent(60))),
        Status::Passed,
        Some(100),
        false,
    );
    do_test_votes(
        vec![vote("bluenote", 2, 60, ShouldExecute::Yes)],
        single_choice(PercentageThreshold::Percent(Decimal::percent(60))),
        Status::Rejected,
        Some(100),
        false,
    );
}

#[test]
fn fuzz_votes() {
    let mut rng = XorShift(0x2545_F491_4F6C_DD1D);
    for _ in 0..10 {
        let zero: Vec<u64> = (0..50).map(|_| rng.between(1, 200)).collect();
        let one: Vec<u64> = (0..50).map(|_| rng.between(1, 200)).collect();
        let none: Vec<u64> = (0..50).map(|_| rng.between(1, 200)).collect();

        let zero_sum: u64 = zero.iter().sum();
        let one_sum: u64 = one.iter().sum();
        let none_sum: u64 = none.iter().sum();

        let mut sums = vec![zero_sum, one_sum, none_sum];
        sums.sort_unstable();
        let expected_status = if *sums.last().unwrap() == none_sum || sums[1] == sums[2] {
            Status::Rejected
        } else {
            Status::Passed
        };

        let mut votes: Vec<TestMultipleChoiceVote> = Vec::new();
        for (idx, w) in zero.into_iter().enumerate() {
            votes.push(vote(&format!("zero_{}", idx), 0, w as u128, ShouldExecute::Meh));
        }
        for (idx, w) in one.into_iter().enumerate() {
            votes.push(vote(&format!("one_{}", idx), 1, w as u128, ShouldExecute::Meh));
        }
        for (idx, w) in none.into_iter().enumerate() {
            votes.push(vote(&format!("none_{}", idx), 2, w as u128, ShouldExecute::Meh));
        }
        // Shuffle the votes.
        for i in (1..votes.len()).rev() {
            let j = (rng.next() % (i as u64 + 1)) as usize;
            votes.swap(i, j);
        }

        do_test_votes(votes, single_choice(PercentageThreshold::Majority {}), expected_status, None, true);
    }
}

#[test]
fn propose_needs_voting_power_and_two_choices() {
    let mut module = instantiate(
        "dao".to_string(),
        InstantiateMsg {
            voting_strategy: single_choice(PercentageThreshold::Majority {}),
            min_voting_period: None,
            max_voting_period: Duration::Height(6),
            only_members_execute: false,
            deposit_info: None,
        },
    )
    .unwrap();
    let block = start_block();
    let two = || MultipleChoiceOptions {
        options: vec![
            MultipleChoiceOption { description: "a".to_string(), msgs: None },
            MultipleChoiceOption { description: "b".to_string(), msgs: None },
        ],
    };
    let err = module
        .execute_propose(&"p".to_string(), "t".to_string(), "d".to_string(), two(), &block, 0, true, 10)
        .unwrap_err();
    assert_eq!(err, ContractError::MustHaveVotingPower {});
    let err = module
        .execute_propose(&"p".to_string(), "t".to_string(), "d".to_string(), two(), &block, 1, false, 10)
        .unwrap_err();
    assert_eq!(err, ContractError::InactiveDao {});
    let one = MultipleChoiceOptions {
        options: vec![MultipleChoiceOption { description: "a".to_string(), msgs: None }],
    };
    let err = module
        .execute_propose(&"p".to_string(), "t".to_string(), "d".to_string(), one, &block, 1, true, 10)
        .unwrap_err();
    assert_eq!(err, ContractError::WrongNumberOfChoices {});
    assert_eq!(module.query_proposal_count(), 0);
    let id = module
        .execute_propose(&"p".to_string(), "t".to_string(), "d".to_string(), two(), &block, 1, true, 10)
        .unwrap();
    assert_eq!(id, 1);
    assert_eq!(module.query_proposal_count(), 1);
}

#[test]
fn vote_without_power_is_refused() {
    let mut module = do_test_votes(
        vec![vote("alice", 0, 5, ShouldExecute::Yes)],
        single_choice(PercentageThreshold::Percent(Decimal::percent(100))),
        Status::Open,
        Some(10),
        false,
    );
    let res = module.execute_vote(&"carol".to_string(), 1, MultipleChoiceVote { option_id: 1 }, 0, &start_block());
    assert_eq!(res.unwrap_err(), ContractError::NotRegistered {});
    let res = module.execute_vote(&"carol".to_string(), 7, MultipleChoiceVote { option_id: 1 }, 3, &start_block());
    assert_eq!(res.unwrap_err(), ContractError::NoSuchProposal { id: 7 });
}

#[test]
fn quorum_above_one_hundred_percent_is_refused() {
    let res = instantiate(
        "dao".to_string(),
        InstantiateMsg {
            voting_strategy: single_choice(PercentageThreshold::Percent(Decimal::percent(101))),
            min_voting_period: None,
            max_voting_period: Duration::Height(6),
            only_members_execute: false,
            deposit_info: None,
        },
    );
    assert!(res.is_err());
}
