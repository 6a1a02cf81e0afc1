use dao_contracts::expiration::{BlockInfo, Duration, Timestamp};
use dao_contracts::proposal_single::contract::{instantiate, tagged_reply, InstantiateMsg, TaggedReplyId};
use dao_contracts::reply_id::{mask_proposal_execution_proposal_id, mask_proposal_hook_index, mask_vote_hook_index};
use dao_contracts::proposal_single::state::{ModuleState, PreProposeInfo};
use dao_contracts::status::Status;
use dao_contracts::threshold::{PercentageThreshold, Threshold};

const CREATOR_ADDR: &str = "creator";
const DAO: &str = "dao";

fn block() -> BlockInfo {
    BlockInfo { height: 12_345, time: Timestamp::from_nanos(1_571_797_419_879_305_533), chain_id: "cosmos-testnet-14002".to_string() }
}

fn module() -> ModuleState {
    instantiate(
        DAO.to_string(),
        "proposal_module".to_string(),
        InstantiateMsg {
            threshold: Threshold::AbsolutePercentage { percentage: PercentageThreshold::Majority {} },
            max_voting_period: Duration::Height(6),
            min_voting_period: None,
            only_members_execute: false,
            allow_revoting: false,
            close_proposal_on_execution_failure: true,
            pre_propose_info: PreProposeInfo::AnyoneMayPropose {},
        },
    )
    .unwrap()
    .0
}

#[test]
fn test_reply_proposal_mock() {
    let mut m = module();
    m.execute_propose(
        &CREATOR_ADDR.to_string(),
        "A simple text proposal".to_string(),
        "This is a simple text proposal".to_string(),
        &vec![],
        &block(),
        true,
        100_000_000,
        100,
    )
    .unwrap();
    let m_proposal_id = mask_proposal_execution_proposal_id(1);
    let tag = tagged_reply(m_proposal_id, &Err("error_msg".to_string())).unwrap();
    assert_eq!(tag, TaggedReplyId::FailedProposalExecution(1));
    m.reply(tag, &block()).unwrap();
    assert_eq!(m.proposals[0].status, Status::ExecutionFailed);
}

#[test]
fn test_reply_hooks_mock() {
    let mut m = module();
    m.execute_add_proposal_hook(&DAO.to_string(), CREATOR_ADDR.to_string()).unwrap();
    let m_proposal_hook_idx = mask_proposal_hook_index(0);
    let tag = tagged_reply(m_proposal_hook_idx, &Err("error_msg".to_string())).unwrap();
    assert_eq!(tag, TaggedReplyId::FailedProposalHook(0));
    m.reply(tag, &block()).unwrap();
    assert_eq!(m.proposal_hooks.len(), 0);

    m.execute_add_vote_hook(&DAO.to_string(), CREATOR_ADDR.to_string()).unwrap();
    let m_vote_hook_idx = mask_vote_hook_index(0);
    let tag = tagged_reply(m_vote_hook_idx, &Err("error_msg".to_string())).unwrap();
    assert_eq!(tag, TaggedReplyId::FailedVoteHook(0));
    m.reply(tag, &block()).unwrap();
    assert_eq!(m.vote_hooks.len(), 0);
}

#[test]
fn tests_test_hooks() {
    let mut m = module();
    let dao = m.query_config().dao;
    assert_eq!(m.proposal_hooks.len(), 0);
    assert_eq!(m.vote_hooks.len(), 0);
    let hook = "some_addr".to_string();

    m.execute_add_proposal_hook(&CREATOR_ADDR.to_string(), hook.clone()).unwrap_err();
    m.execute_add_proposal_hook(&dao, hook.clone()).unwrap();
    assert_eq!(m.proposal_hooks.len(), 1);
    m.execute_add_proposal_hook(&dao, hook.clone()).unwrap_err();
    m.execute_remove_proposal_hook(&dao, "not_exist".to_string()).unwrap_err();
    m.execute_remove_proposal_hook(&CREATOR_ADDR.to_string(), hook.clone()).unwrap_err();
    m.execute_remove_proposal_hook(&dao, hook.clone()).unwrap();

    m.execute_add_vote_hook(&CREATOR_ADDR.to_string(), hook.clone()).unwrap_err();
    m.execute_add_vote_hook(&dao, hook.clone()).unwrap();
    assert_eq!(m.vote_hooks.len(), 1);
    m.execute_add_vote_hook(&dao, hook.clone()).unwrap_err();
    m.execute_remove_vote_hook(&dao, "not_exist".to_string()).unwrap_err();
    m.execute_remove_vote_hook(&CREATOR_ADDR.to_string(), hook.clone()).unwrap_err();
    m.execute_remove_vote_hook(&dao, hook).unwrap();
}

#[test]
fn tests_test_query_list_proposals() {
    let threshold = Threshold::ThresholdQuorum {
        threshold: PercentageThreshold::Majority {},
        quorum: PercentageThreshold::Percent(dao_contracts::threshold::Decimal::percent(0)),
    };
    let mut m = instantiate(
        DAO.to_string(),
        "proposal_module".to_string(),
        InstantiateMsg {
            threshold,
            max_voting_period: Duration::Height(100),
            min_voting_period: None,
            only_members_execute: true,
            allow_revoting: false,
            close_proposal_on_execution_failure: false,
            pre_propose_info: PreProposeInfo::AnyoneMayPropose {},
        },
    )
    .unwrap()
    .0;
    let b = block();
    for i in 1..10 {
        m.execute_propose(
            &CREATOR_ADDR.to_string(),
            format!("Text proposal {}.", i),
            "This is a simple text proposal".to_string(),
            &vec![],
            &b,
            true,
            100,
            100,
        )
        .unwrap();
    }

    let forward = m.query_list_proposals(None, None, &b);
    let mut backward = m.query_reverse_proposals(None, None, &b);
    backward.reverse();
    assert_eq!(forward, backward);

    let expected = |id: u64| dao_contracts::proposal_single::proposal::ProposalResponse {
        id,
        proposal: dao_contracts::proposal_single::proposal::Proposal {
            title: format!("Text proposal {}.", id),
            description: "This is a simple text proposal".to_string(),
            proposer: CREATOR_ADDR.to_string(),
            start_height: b.height,
            min_voting_period: None,
            expiration: dao_contracts::expiration::Expiration::AtHeight(b.height + 100),
            threshold,
            total_power: 100,
            msgs: vec![],
            status: Status::Open,
            votes: dao_contracts::voting::Votes { yes: 0, no: 0, abstain: 0 },
            allow_revoting: false,
            created: b.time,
            last_updated: b.time,
            deposit_info: None,
        },
    };
    assert_eq!(forward[0], expected(1));

    // Proposals (3, 5].
    let forward = m.query_list_proposals(Some(3), Some(2), &b);
    let mut backward = m.query_reverse_proposals(Some(6), Some(2), &b);
    assert_eq!(forward[0], expected(4));
    assert_eq!(backward[1], expected(4));
    backward.reverse();
    assert_eq!(forward, backward);
}
