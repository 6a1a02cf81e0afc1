use dao_contracts::expiration::{BlockInfo, Duration, Expiration, Timestamp};
use dao_contracts::hooks::HookError;
use dao_contracts::proposal_single::contract::{instantiate, InstantiateMsg, TaggedReplyId, UpdateConfigMsg};
use dao_contracts::proposal_single::error::ContractError;
use dao_contracts::proposal_single::proposal::{Proposal, ProposalResponse};
use dao_contracts::proposal_single::state::{Config, ModuleState, PreProposeInfo, ProposalCreationPolicy};
use dao_contracts::status::Status;
use dao_contracts::threshold::{Decimal, PercentageThreshold, Threshold};
use dao_contracts::voting::{Vote, Votes};

const CREATOR_ADDR: &str = "creator";
const DAO: &str = "dao";
const MODULE: &str = "proposal_module";
const WEEK: u64 = 604_800;

fn start_block() -> BlockInfo {
    BlockInfo { height: 12_345, time: Timestamp::from_nanos(1_571_797_419_879_305_533), chain_id: "cosmos-testnet-14002".to_string() }
}

/// The settings a token-based DAO gives its proposal module by default.
fn token_dao_defaults() -> InstantiateMsg {
    InstantiateMsg {
        threshold: Threshold::ThresholdQuorum {
            quorum: PercentageThreshold::Percent(Decimal::percent(15)),
            threshold: PercentageThreshold::Majority {},
        },
        max_voting_period: Duration::Time(WEEK),
        min_voting_period: None,
        only_members_execute: true,
        allow_revoting: false,
        close_proposal_on_execution_failure: true,
        pre_propose_info: PreProposeInfo::AnyoneMayPropose {},
    }
}

/// The settings a member-group DAO gives its proposal module by default.
fn group_dao_defaults() -> InstantiateMsg {
    InstantiateMsg {
        threshold: Threshold::ThresholdQuorum {
            threshold: PercentageThreshold::Percent(Decimal::percent(15)),
            quorum: PercentageThreshold::Majority {},
        },
        ..token_dao_defaults()
    }
}

/// A proposal module and the voting power each address holds.
struct Dao {
    m: ModuleState,
    powers: Vec<(String, u128)>,
    block: BlockInfo,
}

impl Dao {
    fn new(msg: InstantiateMsg, powers: &[(&str, u128)]) -> Dao {
        Dao {
            m: instantiate(DAO.to_string(), MODULE.to_string(), msg).unwrap().0,
            powers: powers.iter().map(|(a, p)| (a.to_string(), *p)).collect(),
            block: start_block(),
        }
    }

    /// The default token DAO, where the creator holds all the power.
    fn token_default() -> Dao {
        Dao::new(token_dao_defaults(), &[(CREATOR_ADDR, 100_000_000)])
    }

    fn power(&self, who: &str) -> u128 {
        self.powers.iter().find(|(a, _)| a == who).map(|(_, p)| *p).unwrap_or(0)
    }

    fn total(&self) -> u128 {
        self.powers.iter().map(|(_, p)| p).sum()
    }

    fn propose_msgs(&mut self, who: &str, msgs: Vec<String>) -> Result<u64, ContractError> {
        let total = self.total();
        self.m.execute_propose(&who.to_string(), "title".to_string(), "description".to_string(), &msgs, &self.block, true, total, 1_000)
            .map(|r| r.0)
    }

    fn propose(&mut self, who: &str) -> u64 {
        self.propose_msgs(who, vec![]).unwrap()
    }

    fn vote(&mut self, who: &str, id: u64, vote: Vote) -> Result<Status, ContractError> {
        let power = self.power(who);
        self.m.execute_vote(&who.to_string(), id, vote, power, &self.block).map(|r| r.0)
    }

    fn execute(&mut self, who: &str, id: u64) -> Result<Status, ContractError> {
        let power = self.power(who);
        self.m.execute_execute(power, id, &self.block).map(|r| r.0)
    }

    fn close(&mut self, id: u64) -> Result<Status, ContractError> {
        self.m.execute_close(id, &self.block).map(|r| r.0)
    }

    fn status(&self, id: u64) -> Status {
        self.m.query_proposal(id, &self.block).unwrap().proposal.status
    }

    fn expire(&mut self) {
        self.block.time = self.block.time.plus_seconds(WEEK);
    }
}

fn expected_proposal(block: &BlockInfo, proposer: &str, threshold: Threshold, total_power: u128) -> Proposal {
    Proposal {
        title: "title".to_string(),
        description: "description".to_string(),
        proposer: proposer.to_string(),
        start_height: block.height,
        min_voting_period: None,
        expiration: Expiration::AtTime(block.time.plus_seconds(WEEK)),
        threshold,
        total_power,
        msgs: vec![],
        status: Status::Open,
        votes: Votes { yes: 0, no: 0, abstain: 0 },
        allow_revoting: false,
        created: block.time,
        last_updated: block.time,
        deposit_info: None,
    }
}

#[test]
fn test_simple_propose_staked_balances() {
    let mut d = Dao::token_default();
    let id = d.propose(CREATOR_ADDR);
    let created = d.m.query_proposal(id, &d.block).unwrap();
    assert_eq!(created.id, 1);
    assert_eq!(created.proposal, expected_proposal(&d.block, CREATOR_ADDR, token_dao_defaults().threshold, 100_000_000));
}

#[test]
fn test_simple_proposal_cw4_voting() {
    let mut d = Dao::new(group_dao_defaults(), &[(CREATOR_ADDR, 1)]);
    let id = d.propose(CREATOR_ADDR);
    let created = d.m.query_proposal(id, &d.block).unwrap();
    assert_eq!(created.id, 1);
    assert_eq!(created.proposal, expected_proposal(&d.block, CREATOR_ADDR, group_dao_defaults().threshold, 1));
}

#[test]
fn test_propose_supports_stargate_messages() {
    let mut d = Dao::token_default();
    let stargate = r#"{"stargate":{"type_url":"foo_type","value":""}}"#.to_string();
    d.propose_msgs(CREATOR_ADDR, vec![stargate.clone()]).unwrap();
    assert_eq!(d.m.query_proposal(1, &d.block).unwrap().proposal.msgs, vec![stargate]);
}

#[test]
fn test_proposal_message_execution() {
    let mut msg = token_dao_defaults();
    msg.close_proposal_on_execution_failure = false;
    let mut d = Dao::new(msg, &[(CREATOR_ADDR, 100_000_000)]);
    let id = d.propose_msgs(CREATOR_ADDR, vec!["mint".to_string(), "send".to_string()]).unwrap();
    d.vote(CREATOR_ADDR, id, Vote::Yes).unwrap();
    assert_eq!(d.status(id), Status::Passed);

    // A first attempt, made while the DAO can not yet pay, fails on
    // chain, and the whole transaction is undone: the proposal stays
    // passed.
    assert_eq!(d.status(id), Status::Passed);

    let (_, execution, _) = d.m.execute_execute(100_000_000, id, &d.block).unwrap();
    let execution = execution.unwrap();
    assert_eq!(execution.dao, DAO);
    assert_eq!(execution.msgs, vec!["mint".to_string(), "send".to_string()]);
    assert_eq!(execution.reply_on_error, None);
    assert_eq!(d.status(id), Status::Executed);
    // Proposals can't be executed more than once.
    assert_eq!(d.execute(CREATOR_ADDR, id), Err(ContractError::NotPassed {}));
}

#[test]
fn test_proposal_close_after_expiry() {
    let mut d = Dao::token_default();
    let id = d.propose_msgs(CREATOR_ADDR, vec!["send".to_string()]).unwrap();
    assert_eq!(d.close(id), Err(ContractError::WrongCloseStatus {}));
    d.expire();
    d.close(id).unwrap();
    assert_eq!(d.status(id), Status::Closed);
    // Closing records when the proposal last changed.
    let p = d.m.query_proposal(id, &d.block).unwrap().proposal;
    assert_eq!(p.created, start_block().time);
    assert_eq!(p.last_updated, d.block.time);
}

#[test]
fn test_proposal_cant_close_after_expiry_is_passed() {
    let mut d = Dao::new(token_dao_defaults(), &[("quorum", 15), (CREATOR_ADDR, 85)]);
    let id = d.propose_msgs(CREATOR_ADDR, vec!["send".to_string()]).unwrap();
    d.vote("quorum", id, Vote::Yes).unwrap();
    assert_eq!(d.status(id), Status::Open);
    d.expire();
    assert_eq!(d.status(id), Status::Passed);
    assert_eq!(d.close(id), Err(ContractError::WrongCloseStatus {}));
    d.execute(CREATOR_ADDR, id).unwrap();
    assert_eq!(d.close(id), Err(ContractError::WrongCloseStatus {}));
    assert_eq!(d.close(id), Err(ContractError::WrongCloseStatus {}));
}

#[test]
fn test_execute_no_non_passed_execution() {
    let mut d = Dao::token_default();
    let id = d.propose_msgs(CREATOR_ADDR, vec!["send".to_string()]).unwrap();
    assert_eq!(d.execute(CREATOR_ADDR, id), Err(ContractError::NotPassed {}));
    d.expire();
    assert_eq!(d.execute(CREATOR_ADDR, id), Err(ContractError::NotPassed {}));

    let id = d.propose(CREATOR_ADDR);
    d.vote(CREATOR_ADDR, id, Vote::Yes).unwrap();
    d.execute(CREATOR_ADDR, id).unwrap();
    assert_eq!(d.execute(CREATOR_ADDR, id), Err(ContractError::NotPassed {}));
}

#[test]
fn proposal_module_test_update_config() {
    let mut d = Dao::token_default();
    let id = d.propose(CREATOR_ADDR);
    d.vote(CREATOR_ADDR, id, Vote::Yes).unwrap();
    d.execute(CREATOR_ADDR, id).unwrap();

    let new_config = || Config {
        threshold: Threshold::AbsoluteCount { threshold: 10_000 },
        max_voting_period: Duration::Height(6),
        min_voting_period: None,
        only_members_execute: true,
        allow_revoting: false,
        dao: DAO.to_string(),
        close_proposal_on_execution_failure: false,
        proposal_creation_policy: ProposalCreationPolicy::Anyone {},
    };
    let update = || UpdateConfigMsg {
        threshold: Threshold::AbsoluteCount { threshold: 10_000 },
        max_voting_period: Duration::Height(6),
        min_voting_period: None,
        only_members_execute: true,
        allow_revoting: false,
        dao: DAO.to_string(),
        close_proposal_on_execution_failure: false,
        pre_propose_info: PreProposeInfo::AnyoneMayPropose {},
    };
    let id = d.propose_msgs(CREATOR_ADDR, vec!["update config".to_string()]).unwrap();
    d.vote(CREATOR_ADDR, id, Vote::Yes).unwrap();
    d.execute(CREATOR_ADDR, id).unwrap();
    // The DAO runs the proposal's message.
    assert_eq!(d.m.execute_update_config(&DAO.to_string(), MODULE.to_string(), update()), Ok(None));
    assert_eq!(d.m.query_config(), new_config());

    assert_eq!(
        d.m.execute_update_config(&CREATOR_ADDR.to_string(), MODULE.to_string(), update()),
        Err(ContractError::Unauthorized {})
    );
}

#[test]
fn test_anyone_may_propose_and_proposal_listing() {
    let mut d = Dao::token_default();
    let proposers: Vec<String> = ('m'..'z').map(|c| c.to_string().repeat(6)).collect();
    for addr in &proposers {
        let id = d.propose(addr);
        d.vote(CREATOR_ADDR, id, Vote::Yes).unwrap();
        // Only members can execute still.
        assert_eq!(d.execute(addr, id), Err(ContractError::Unauthorized {}));
        d.execute(CREATOR_ADDR, id).unwrap();
    }

    let forward = d.m.query_list_proposals(None, None, &d.block);
    let mut reverse = d.m.query_reverse_proposals(None, None, &d.block);
    reverse.reverse();
    assert_eq!(reverse, forward);
    for (index, addr) in proposers.iter().enumerate() {
        assert_eq!(&forward[index].proposal.proposer, addr);
    }

    let four_and_five = d.m.query_list_proposals(Some(3), Some(2), &d.block);
    let mut five_and_four = d.m.query_reverse_proposals(Some(6), Some(2), &d.block);
    five_and_four.reverse();
    assert_eq!(five_and_four, four_and_five);
    assert_eq!(four_and_five[0].proposal.proposer, "pppppp");

    let mut expected = expected_proposal(&d.block, "pppppp", token_dao_defaults().threshold, 100_000_000);
    expected.status = Status::Executed;
    expected.votes = Votes { yes: 100_000_000, no: 0, abstain: 0 };
    assert_eq!(four_and_five[0], ProposalResponse { id: 4, proposal: expected });
}

/// The default DAO's proposal module, with its pre-propose module
/// instantiated and registered.
fn with_pre_propose_module() -> Dao {
    let mut d = Dao::token_default();
    let block = d.block.clone();
    d.m.reply(TaggedReplyId::PreProposeModuleInstantiation("pre_propose".to_string()), &block).unwrap();
    d
}

#[test]
fn test_proposal_hook_registration() {
    let mut d = with_pre_propose_module();
    assert_eq!(d.m.proposal_hooks.hooks.len(), 1, "pre-propose deposit module should be registered");

    let hook = "proposalhook".to_string();
    assert_eq!(d.m.execute_add_proposal_hook(&CREATOR_ADDR.to_string(), hook.clone()), Err(ContractError::Unauthorized {}));
    d.m.execute_add_proposal_hook(&DAO.to_string(), hook.clone()).unwrap();
    assert_eq!(
        d.m.execute_add_proposal_hook(&DAO.to_string(), hook.clone()),
        Err(ContractError::HookError(HookError::HookAlreadyRegistered {}))
    );
    assert_eq!(d.m.proposal_hooks.hooks[1], hook);

    assert_eq!(d.m.execute_remove_proposal_hook(&CREATOR_ADDR.to_string(), hook.clone()), Err(ContractError::Unauthorized {}));
    d.m.execute_remove_proposal_hook(&DAO.to_string(), hook.clone()).unwrap();
    assert_eq!(d.m.proposal_hooks.hooks.len(), 1);
    assert_eq!(
        d.m.execute_remove_proposal_hook(&DAO.to_string(), hook),
        Err(ContractError::HookError(HookError::HookNotRegistered {}))
    );
}

#[test]
fn test_vote_hook_registration() {
    let mut d = with_pre_propose_module();
    assert!(d.m.vote_hooks.hooks.is_empty());

    let hook = "votehook".to_string();
    assert_eq!(d.m.execute_add_vote_hook(&CREATOR_ADDR.to_string(), hook.clone()), Err(ContractError::Unauthorized {}));
    d.m.execute_add_vote_hook(&DAO.to_string(), hook.clone()).unwrap();
    assert_eq!(d.m.vote_hooks.hooks, vec![hook.clone()]);
    assert_eq!(
        d.m.execute_add_vote_hook(&DAO.to_string(), hook.clone()),
        Err(ContractError::HookError(HookError::HookAlreadyRegistered {}))
    );
    assert_eq!(d.m.vote_hooks.hooks[0], hook);

    assert_eq!(d.m.execute_remove_vote_hook(&CREATOR_ADDR.to_string(), hook.clone()), Err(ContractError::Unauthorized {}));
    d.m.execute_remove_vote_hook(&DAO.to_string(), hook.clone()).unwrap();
    assert!(d.m.vote_hooks.hooks.is_empty());
    assert_eq!(
        d.m.execute_remove_vote_hook(&DAO.to_string(), hook),
        Err(ContractError::HookError(HookError::HookNotRegistered {}))
    );
}

/// Proposals can only be created while the voting module reports the
/// DAO active; `active` gives its answer at each attempt.
fn active_threshold_scenario(active: [bool; 3]) {
    let mut d = Dao::token_default();
    let total = d.total();
    let propose = |d: &mut Dao, dao_active: bool| {
        d.m.execute_propose(&CREATOR_ADDR.to_string(), "title".to_string(), "description".to_string(), &vec![], &d.block, dao_active, total, 1_000).map(|r| r.0)
    };
    assert_eq!(propose(&mut d, active[0]), Err(ContractError::InactiveDao {}));
    propose(&mut d, active[1]).unwrap();
    assert_eq!(propose(&mut d, active[2]), Err(ContractError::InactiveDao {}));
}

#[test]
fn tests_test_active_threshold_absolute() {
    // Nothing staked, then 100 tokens staked, then 50 unstaked, against
    // an absolute active threshold of 100.
    active_threshold_scenario([false, true, false]);
}

#[test]
fn tests_test_active_threshold_percent() {
    // Nothing staked, then 20% of the supply staked, then one token
    // unstaked, against an active threshold of 20%.
    active_threshold_scenario([false, true, false]);
}

#[test]
fn test_min_voting_period_no_early_pass() {
    let mut msg = token_dao_defaults();
    msg.min_voting_period = Some(Duration::Height(10));
    msg.max_voting_period = Duration::Height(100);
    let mut d = Dao::new(msg, &[(CREATOR_ADDR, 100_000_000)]);
    let id = d.propose(CREATOR_ADDR);
    d.vote(CREATOR_ADDR, id, Vote::Yes).unwrap();
    assert_eq!(d.status(id), Status::Open);
    d.block.height += 10;
    assert_eq!(d.status(id), Status::Passed);
}

#[test]
fn single_test_min_duration_same_as_proposal_duration() {
    let mut msg = token_dao_defaults();
    msg.min_voting_period = Some(Duration::Height(100));
    msg.max_voting_period = Duration::Height(100);
    let mut d = Dao::new(msg, &[("ekez", 10), ("whale", 90)]);
    let id = d.propose("ekez");
    // The whale's vote would pass the proposal at once, but the minimum
    // voting period lets ekez vote too.
    d.vote("whale", id, Vote::Yes).unwrap();
    d.vote("ekez", id, Vote::No).unwrap();
    d.block.height += 100;
    assert_eq!(d.status(id), Status::Passed);
}

#[test]
fn test_revoting_playthrough() {
    let mut msg = token_dao_defaults();
    msg.allow_revoting = true;
    let mut d = Dao::new(msg, &[(CREATOR_ADDR, 100_000_000)]);
    let id = d.propose(CREATOR_ADDR);
    d.vote(CREATOR_ADDR, id, Vote::Yes).unwrap();
    assert_eq!(d.status(id), Status::Open);
    d.vote(CREATOR_ADDR, id, Vote::No).unwrap();
    assert_eq!(d.status(id), Status::Open);
    d.vote(CREATOR_ADDR, id, Vote::Yes).unwrap();
    assert_eq!(d.status(id), Status::Open);
    assert_eq!(d.vote(CREATOR_ADDR, id, Vote::Yes), Err(ContractError::AlreadyCast {}));

    d.expire();
    assert_eq!(d.status(id), Status::Passed);
    d.execute(CREATOR_ADDR, id).unwrap();
    assert!(matches!(d.vote(CREATOR_ADDR, id, Vote::Yes), Err(ContractError::NotOpen { .. })));
}

#[test]
fn test_allow_revoting_config_changes() {
    let mut msg = token_dao_defaults();
    msg.allow_revoting = true;
    let mut d = Dao::new(msg, &[(CREATOR_ADDR, 100_000_000)]);
    let revoting_proposal = d.propose(CREATOR_ADDR);

    d.m.execute_update_config(
        &DAO.to_string(),
        MODULE.to_string(),
        UpdateConfigMsg {
            threshold: token_dao_defaults().threshold,
            max_voting_period: Duration::Height(10),
            min_voting_period: None,
            only_members_execute: true,
            allow_revoting: false,
            dao: DAO.to_string(),
            close_proposal_on_execution_failure: false,
            pre_propose_info: PreProposeInfo::AnyoneMayPropose {},
        },
    )
    .unwrap();
    let no_revoting_proposal = d.propose(CREATOR_ADDR);

    d.vote(CREATOR_ADDR, revoting_proposal, Vote::Yes).unwrap();
    d.vote(CREATOR_ADDR, no_revoting_proposal, Vote::Yes).unwrap();
    assert_eq!(d.status(no_revoting_proposal), Status::Passed);
    assert_eq!(d.status(revoting_proposal), Status::Open);
    assert!(matches!(d.vote(CREATOR_ADDR, no_revoting_proposal, Vote::No), Err(ContractError::NotOpen { .. })));
    d.vote(CREATOR_ADDR, revoting_proposal, Vote::No).unwrap();

    d.expire();
    d.close(revoting_proposal).unwrap();
}

fn three_of_five(allow_revoting: bool) -> Dao {
    let mut msg = group_dao_defaults();
    msg.threshold = Threshold::AbsoluteCount { threshold: 3 };
    msg.allow_revoting = allow_revoting;
    Dao::new(msg, &[("one", 1), ("two", 1), ("three", 1), ("four", 1), ("five", 1)])
}

#[test]
fn test_three_of_five_multisig() {
    let mut d = three_of_five(false);
    let id = d.propose(CREATOR_ADDR);
    d.vote("one", id, Vote::Yes).unwrap();
    d.vote("two", id, Vote::Yes).unwrap();
    assert_eq!(d.status(1), Status::Open);
    d.vote("three", id, Vote::Yes).unwrap();
    assert_eq!(d.status(1), Status::Passed);
    d.execute("four", id).unwrap();
    assert_eq!(d.status(1), Status::Executed);

    let id = d.propose("one");
    d.vote("one", id, Vote::Yes).unwrap();
    d.vote("two", id, Vote::No).unwrap();
    d.vote("three", id, Vote::No).unwrap();
    d.vote("four", id, Vote::No).unwrap();
    assert_eq!(d.status(id), Status::Rejected);
    d.close(id).unwrap();
    assert_eq!(d.status(id), Status::Closed);
}

#[test]
fn test_three_of_five_multisig_revoting() {
    let mut d = three_of_five(true);
    let id = d.propose(CREATOR_ADDR);
    d.vote("one", id, Vote::Yes).unwrap();
    d.vote("two", id, Vote::Yes).unwrap();
    assert_eq!(d.status(id), Status::Open);
    d.vote("three", id, Vote::Yes).unwrap();
    // Revoting is enabled so the proposal is still open.
    assert_eq!(d.status(id), Status::Open);
    d.vote("one", id, Vote::No).unwrap();
    d.vote("two", id, Vote::No).unwrap();
    assert_eq!(d.vote("two", id, Vote::No), Err(ContractError::AlreadyCast {}));
    d.expire();
    assert_eq!(d.status(id), Status::Rejected);
}

#[test]
fn single_test_proposal_count_initialized_to_zero() {
    let d = Dao::new(
        InstantiateMsg {
            threshold: Threshold::ThresholdQuorum {
                threshold: PercentageThreshold::Majority {},
                quorum: PercentageThreshold::Percent(Decimal::percent(10)),
            },
            max_voting_period: Duration::Height(10),
            min_voting_period: None,
            only_members_execute: true,
            allow_revoting: false,
            close_proposal_on_execution_failure: true,
            pre_propose_info: PreProposeInfo::AnyoneMayPropose {},
        },
        &[("ekez", 10), ("innactive", 90)],
    );
    assert_eq!(d.m.query_proposal_count(), 0);
}
