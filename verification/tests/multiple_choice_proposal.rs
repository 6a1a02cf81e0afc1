use dao_contracts::expiration::{BlockInfo, Expiration, Timestamp};
use dao_contracts::proposal_multiple::error::ContractError;
use dao_contracts::proposal_multiple::proposal::MultipleChoiceProposal;
use dao_contracts::proposal_multiple::state::{MultipleChoiceOption, MultipleChoiceOptionType, MultipleChoiceOptions};
use dao_contracts::proposal_multiple::voting_strategy::VotingStrategy;
use dao_contracts::status::Status;
use dao_contracts::threshold::{Decimal, PercentageThreshold};
use dao_contracts::voting::MultipleChoiceVotes;

fn mock_block() -> BlockInfo {
    BlockInfo { height: 12_345, time: Timestamp::from_nanos(1_571_797_419_879_305_533), chain_id: "cosmos-testnet-14002".to_string() }
}

fn weights(w: [u128; 3]) -> MultipleChoiceVotes {
    MultipleChoiceVotes { vote_weights: w.to_vec() }
}

fn two_options() -> MultipleChoiceOptions {
    MultipleChoiceOptions {
        options: vec![
            MultipleChoiceOption { description: "multiple choice option 1".to_string(), msgs: None },
            MultipleChoiceOption { description: "multiple choice option 2".to_string(), msgs: None },
        ],
    }
}

fn create_proposal(
    block: &BlockInfo,
    voting_strategy: VotingStrategy,
    votes: MultipleChoiceVotes,
    total_power: u128,
    is_expired: bool,
) -> MultipleChoiceProposal {
    let expiration =
        if is_expired { Expiration::AtHeight(block.height - 5) } else { Expiration::AtHeight(block.height + 5) };
    MultipleChoiceProposal {
        title: "A simple text proposal".to_string(),
        description: "A simple text proposal".to_string(),
        proposer: "CREATOR".to_string(),
        start_height: mock_block().height,
        expiration,
        choices: two_options().into_checked().unwrap().options,
        status: Status::Open,
        voting_strategy,
        total_power,
        votes,
        deposit_info: None,
        min_voting_period: None,
    }
}

fn passed_and_rejected(strategy: VotingStrategy, w: [u128; 3], total: u128, expired: bool) -> (bool, bool) {
    let block = mock_block();
    let prop = create_proposal(&block, strategy, weights(w), total, expired);
    (prop.is_passed(&block).unwrap(), prop.is_rejected(&block).unwrap())
}

#[test]
fn test_majority_quorum() {
    let s = VotingStrategy::SingleChoice { quorum: PercentageThreshold::Majority {} };
    // Quorum met and every vote cast: passed.
    assert_eq!(passed_and_rejected(s, [1, 0, 0], 1, false), (true, false));
    // Quorum met but none of the above won: rejected.
    assert_eq!(passed_and_rejected(s, [0, 0, 1], 1, false), (false, true));
    // Quorum not met, not expired: open.
    assert_eq!(passed_and_rejected(s, [1, 0, 0], 100, false), (false, false));
    // Quorum not met and expired: rejected.
    assert_eq!(passed_and_rejected(s, [1, 0, 0], 100, true), (false, true));
    // Quorum met, a tie, expired: rejected.
    assert_eq!(passed_and_rejected(s, [50, 50, 0], 100, true), (false, true));
    // Quorum met, a tie, power remaining: open.
    assert_eq!(passed_and_rejected(s, [50, 50, 0], 150, false), (false, false));
}

#[test]
fn test_percentage_quorum() {
    let s = VotingStrategy::SingleChoice { quorum: PercentageThreshold::Percent(Decimal::percent(10)) };
    assert_eq!(passed_and_rejected(s, [1, 0, 0], 1, false), (true, false));
    assert_eq!(passed_and_rejected(s, [0, 0, 1], 1, false), (false, true));
    assert_eq!(passed_and_rejected(s, [1, 0, 0], 100, false), (false, false));
    assert_eq!(passed_and_rejected(s, [1, 0, 0], 101, true), (false, true));
    assert_eq!(passed_and_rejected(s, [50, 50, 0], 10000, true), (false, true));
    assert_eq!(passed_and_rejected(s, [50, 50, 0], 150, false), (false, false));
}

#[test]
fn test_unbeatable_none_option() {
    let s = VotingStrategy::SingleChoice { quorum: PercentageThreshold::Percent(Decimal::percent(10)) };
    assert_eq!(passed_and_rejected(s, [0, 50, 500], 1000, false), (false, true));
}

#[test]
fn test_quorum_rounding() {
    let s = VotingStrategy::SingleChoice { quorum: PercentageThreshold::Percent(Decimal::percent(10)) };
    assert_eq!(passed_and_rejected(s, [10, 0, 0], 100, true), (true, false));

    let s = VotingStrategy::SingleChoice { quorum: PercentageThreshold::Percent(Decimal::percent(100)) };
    assert_eq!(passed_and_rejected(s, [999_999, 0, 0], 1_000_000, true), (false, true));

    let s = VotingStrategy::SingleChoice { quorum: PercentageThreshold::Percent(Decimal::percent(99)) };
    assert_eq!(passed_and_rejected(s, [9_888_889, 0, 0], 10_000_000, true), (false, true));
}

#[test]
fn multiple_proposal_test_tricky_pass() {
    // 7 / 13 as a decimal, rounded down.
    let seven_thirteenths = Decimal { atomics: 7_000_000_000_000_000_000 / 13 };
    let s = VotingStrategy::SingleChoice { quorum: PercentageThreshold::Percent(seven_thirteenths) };
    assert_eq!(passed_and_rejected(s, [7, 0, 6], 13, true), (true, false));
    assert_eq!(passed_and_rejected(s, [7, 0, 6], 13, false), (true, false));
}

#[test]
fn multiple_proposal_test_tricky_pass_majority() {
    let s = VotingStrategy::SingleChoice { quorum: PercentageThreshold::Majority {} };
    assert_eq!(passed_and_rejected(s, [7, 0, 0], 13, true), (true, false));
    assert_eq!(passed_and_rejected(s, [7, 0, 0], 14, true), (false, true));
}

#[test]
fn test_into_checked() {
    let checked = two_options().into_checked().unwrap();
    assert_eq!(checked.options.len(), 3);
    assert_eq!(checked.options[0].option_type, MultipleChoiceOptionType::Standard);
    assert_eq!(checked.options[0].description, "multiple choice option 1");
    assert_eq!(checked.options[1].option_type, MultipleChoiceOptionType::Standard);
    assert_eq!(checked.options[1].description, "multiple choice option 2");
    assert_eq!(checked.options[2].option_type, MultipleChoiceOptionType::NoneOfTheAbove);
    assert_eq!(checked.options[2].description, "None of the above");
}

#[test]
fn test_into_checked_wrong_num_choices() {
    let options = MultipleChoiceOptions {
        options: vec![MultipleChoiceOption { description: "multiple choice option 1".to_string(), msgs: None }],
    };
    assert!(matches!(options.into_checked(), Err(ContractError::WrongNumberOfChoices {})));
}

#[test]
fn proposal_reports_proposer_deposit_and_status() {
    let block = mock_block();
    let prop = create_proposal(&block, VotingStrategy::SingleChoice { quorum: PercentageThreshold::Majority {} }, weights([0, 0, 0]), 1, false);
    assert_eq!(prop.proposer(), "CREATOR");
    assert_eq!(prop.deposit_info(), None);
    assert_eq!(prop.status(), Status::Open);
}
