use dao_contracts::governance::{
    Admin, Config, ContractError, ExecuteMsg, ExecuteResponse, Governance, InstantiateMsg, ModuleInstantiateInfo,
    GOV_MODULE_REPLY_ID, VOTE_MODULE_INSTANTIATE_REPLY_ID, VOTE_MODULE_UPDATE_REPLY_ID,
};
use dao_contracts::reply::ReplyError;
use dao_contracts::std_error::StdError;
use dao_contracts::voting::ContractVersion;

const CORE: &str = "core";

fn module(code_id: u64, admin: Admin) -> ModuleInstantiateInfo {
    ModuleInstantiateInfo { code_id, msg: b"{}".to_vec(), admin, label: format!("module {}", code_id) }
}

/// The protobuf encoding of an instantiation response naming `addr`.
fn instantiate_response(addr: &str) -> Vec<u8> {
    let mut data = vec![0x0a, addr.len() as u8];
    data.extend_from_slice(addr.as_bytes());
    data
}

fn dao(gov_modules: usize) -> Governance {
    let msg = InstantiateMsg {
        name: "DAO".to_string(),
        description: "A DAO".to_string(),
        image_url: None,
        voting_module_instantiate_info: module(1, Admin::GovernanceContract {}),
        governance_modules_instantiate_info: (0..gov_modules).map(|i| module(10 + i as u64, Admin::NoAdmin {})).collect(),
    };
    let (g, subs) = Governance::instantiate(msg, CORE.to_string()).unwrap();
    assert_eq!(subs.len(), gov_modules + 1);
    assert_eq!(subs[0].reply_id, VOTE_MODULE_INSTANTIATE_REPLY_ID);
    assert_eq!(subs[0].msg.admin, Some(CORE.to_string()));
    for s in &subs[1..] {
        assert_eq!(s.reply_id, GOV_MODULE_REPLY_ID);
        assert_eq!(s.msg.admin, None);
    }
    g
}

#[test]
fn instantiate_needs_a_governance_module() {
    let msg = InstantiateMsg {
        name: "DAO".to_string(),
        description: "A DAO".to_string(),
        image_url: None,
        voting_module_instantiate_info: module(1, Admin::NoAdmin {}),
        governance_modules_instantiate_info: vec![],
    };
    assert_eq!(Governance::instantiate(msg, CORE.to_string()).err(), Some(ContractError::NoGovernanceModule {}));
    let g = dao(3);
    assert_eq!(g.module_count, 3);
}

#[test]
fn replies_record_modules() {
    let mut g = dao(1);
    assert_eq!(g.query_voting_module(), Err(StdError::NotFound {}));
    let voting = g.reply(VOTE_MODULE_INSTANTIATE_REPLY_ID, &Ok(Some(instantiate_response("voting1")))).unwrap();
    assert_eq!(voting, "voting1");
    assert_eq!(g.query_voting_module(), Ok("voting1".to_string()));
    assert_eq!(
        g.reply(VOTE_MODULE_INSTANTIATE_REPLY_ID, &Ok(Some(instantiate_response("voting2")))),
        Err(ContractError::MultipleVotingModules {})
    );
    g.reply(VOTE_MODULE_UPDATE_REPLY_ID, &Ok(Some(instantiate_response("voting2")))).unwrap();
    assert_eq!(g.query_voting_module(), Ok("voting2".to_string()));

    let gov = g.reply(GOV_MODULE_REPLY_ID, &Ok(Some(instantiate_response("gov1")))).unwrap();
    assert_eq!(gov, "gov1");
    assert_eq!(g.query_governance_modules(None, None), vec!["gov1".to_string()]);

    assert_eq!(g.reply(7, &Ok(None)), Err(ContractError::UnknownReplyID {}));
    assert_eq!(g.reply(GOV_MODULE_REPLY_ID, &Ok(None)), Err(ContractError::Reply(ReplyError::MissingData {})));
    assert_eq!(
        g.reply(GOV_MODULE_REPLY_ID, &Err("out of gas".to_string())),
        Err(ContractError::Reply(ReplyError::SubMsgFailure {}))
    );
    assert_eq!(
        g.reply(GOV_MODULE_REPLY_ID, &Ok(Some(vec![0x12, 0x01, 0x00]))),
        Err(ContractError::Reply(ReplyError::ParseFailure {}))
    );
}

#[test]
fn proposal_hooks_only_from_governance_modules() {
    let mut g = dao(1);
    g.reply(GOV_MODULE_REPLY_ID, &Ok(Some(instantiate_response("gov1")))).unwrap();
    let msgs = vec!["msg1".to_string(), "msg2".to_string()];
    assert_eq!(
        g.execute("stranger".to_string(), CORE.to_string(), ExecuteMsg::ExecuteProposalHook { msgs: msgs.clone() }).err(),
        Some(ContractError::Unauthorized {})
    );
    match g.execute("gov1".to_string(), CORE.to_string(), ExecuteMsg::ExecuteProposalHook { msgs: msgs.clone() }).unwrap() {
        ExecuteResponse::Messages(m) => assert_eq!(m, msgs),
        other => panic!("unexpected response {:?}", other),
    }
}

#[test]
fn dao_updates_itself() {
    let mut g = dao(2);
    let config = Config { name: "New".to_string(), description: "New DAO".to_string(), image_url: Some("url".to_string()) };
    assert_eq!(
        g.execute("gov1".to_string(), CORE.to_string(), ExecuteMsg::UpdateConfig { config }).err(),
        Some(ContractError::Unauthorized {})
    );
    let config = Config { name: "New".to_string(), description: "New DAO".to_string(), image_url: Some("url".to_string()) };
    g.execute(CORE.to_string(), CORE.to_string(), ExecuteMsg::UpdateConfig { config }).unwrap();
    let c = g.query_config();
    assert_eq!(c.name, "New");
    assert_eq!(c.image_url, Some("url".to_string()));

    match g
        .execute(CORE.to_string(), CORE.to_string(), ExecuteMsg::UpdateVotingModule { module: module(5, Admin::Address { addr: "a".to_string() }) })
        .unwrap()
    {
        ExecuteResponse::SubMessages(s) => {
            assert_eq!(s.len(), 1);
            assert_eq!(s[0].reply_id, VOTE_MODULE_UPDATE_REPLY_ID);
            assert_eq!(s[0].msg.code_id, 5);
            assert_eq!(s[0].msg.admin, Some("a".to_string()));
        }
        other => panic!("unexpected response {:?}", other),
    }
}

#[test]
fn governance_module_count_never_reaches_zero() {
    let mut g = dao(1);
    g.reply(GOV_MODULE_REPLY_ID, &Ok(Some(instantiate_response("gov1")))).unwrap();
    assert_eq!(
        g.execute_update_governance_modules(&CORE.to_string(), vec![], vec!["gov1".to_string()]).err(),
        Some(ContractError::NoGovernanceModule {})
    );
    assert_eq!(
        g.execute_update_governance_modules(&CORE.to_string(), vec![], vec!["a".to_string(), "b".to_string()]).err(),
        Some(ContractError::Overflow {})
    );
    let subs = g
        .execute_update_governance_modules(&CORE.to_string(), vec![module(20, Admin::NoAdmin {})], vec!["gov1".to_string()])
        .unwrap();
    assert_eq!(subs.len(), 1);
    assert_eq!(subs[0].reply_id, GOV_MODULE_REPLY_ID);
    assert_eq!(g.module_count, 1);
    assert!(g.query_governance_modules(None, None).is_empty());
}

#[test]
fn dump_state_lists_modules_descending() {
    let mut g = dao(3);
    assert_eq!(
        g.query_dump_state(ContractVersion { contract: "c".to_string(), version: "1".to_string() }).err(),
        Some(StdError::NotFound {})
    );
    g.reply(VOTE_MODULE_INSTANTIATE_REPLY_ID, &Ok(Some(instantiate_response("voting")))).unwrap();
    for a in ["gov_b", "gov_a", "gov_c"] {
        g.reply(GOV_MODULE_REPLY_ID, &Ok(Some(instantiate_response(a)))).unwrap();
    }
    let dump = g.query_dump_state(ContractVersion { contract: "c".to_string(), version: "1".to_string() }).unwrap();
    assert_eq!(dump.governance_modules, vec!["gov_c", "gov_b", "gov_a"]);
    assert_eq!(dump.voting_module, "voting");
    assert_eq!(g.query_governance_modules(Some("gov_b".to_string()), Some(1)), vec!["gov_c".to_string()]);
}

const CREATOR_ADDR: &str = "creator";

/// A DAO core created with `n` governance modules, each sub-message
/// answered by the chain with a new module address, in order.
fn instantiated_with(n: usize) -> Governance {
    let msg = InstantiateMsg {
        name: "DAO DAO".to_string(),
        description: "A DAO that builds DAOs.".to_string(),
        image_url: None,
        voting_module_instantiate_info: module(1, Admin::GovernanceContract {}),
        governance_modules_instantiate_info: (0..n)
            .map(|i| ModuleInstantiateInfo {
                code_id: 1,
                msg: b"{}".to_vec(),
                admin: Admin::GovernanceContract {},
                label: format!("governance module {}", i),
            })
            .collect(),
    };
    let (mut g, subs) = Governance::instantiate(msg, CORE.to_string()).unwrap();
    for (i, s) in subs.iter().enumerate() {
        g.reply(s.reply_id, &Ok(Some(instantiate_response(&format!("contract{:04}", i))))).unwrap();
    }
    g
}

/// Answers the sub-messages of a response with new contract addresses
/// starting at `next`.
fn answer(g: &mut Governance, response: ExecuteResponse, next: &mut usize) {
    if let ExecuteResponse::SubMessages(subs) = response {
        for s in subs {
            g.reply(s.reply_id, &Ok(Some(instantiate_response(&format!("contract{:04}", *next))))).unwrap();
            *next += 1;
        }
    }
}

/// A governance module has the DAO core run `msg` as itself: the module
/// sends the message as a proposal hook, which the core hands back, and
/// the chain then delivers it from the core.
fn run_as_core(g: &mut Governance, module_addr: &str, msg: ExecuteMsg) -> Result<ExecuteResponse, ContractError> {
    let hook = g.execute(
        module_addr.to_string(),
        CORE.to_string(),
        ExecuteMsg::ExecuteProposalHook { msgs: vec!["update".to_string()] },
    )?;
    assert!(matches!(hook, ExecuteResponse::Messages(_)));
    g.execute(CORE.to_string(), CORE.to_string(), msg)
}

#[test]
fn test_valid_instantiate() {
    for count in [1usize, 2, 200] {
        let g = instantiated_with(count);
        let state = g
            .query_dump_state(ContractVersion {
                contract: "crates.io:cw-governance".to_string(),
                version: "0.1.0".to_string(),
            })
            .unwrap();
        assert_eq!(state.config.name, "DAO DAO");
        assert_eq!(state.config.description, "A DAO that builds DAOs.");
        assert_eq!(state.config.image_url, None);
        assert_eq!(state.version.contract, "crates.io:cw-governance");
        assert_eq!(state.version.version, "0.1.0");
        assert_eq!(state.governance_modules.len(), count);
    }
}

#[test]
fn governance_test_update_config() {
    let mut g = instantiated_with(1);
    let modules = g.query_governance_modules(None, None);
    assert_eq!(modules.len(), 1);
    let expected = Config {
        name: "Root DAO".to_string(),
        description: "We love trees and sudo.".to_string(),
        image_url: Some("https://moonphase.is/image.svg".to_string()),
    };
    run_as_core(&mut g, &modules[0], ExecuteMsg::UpdateConfig { config: expected.duplicate() }).unwrap();
    let config = g.query_config();
    assert_eq!(config.name, expected.name);
    assert_eq!(config.description, expected.description);
    assert_eq!(config.image_url, expected.image_url);
}

fn swap_governance(swaps: Vec<(u64, u64)>) {
    let mut g = instantiated_with(1);
    let mut next = 1000;
    assert_eq!(g.query_governance_modules(None, None).len(), 1);
    for (add, remove) in swaps {
        let start_modules = g.query_governance_modules(None, None);
        let to_add: Vec<ModuleInstantiateInfo> = (0..add)
            .map(|n| ModuleInstantiateInfo {
                code_id: 1,
                msg: b"{}".to_vec(),
                admin: Admin::GovernanceContract {},
                label: format!("governance module {}", n),
            })
            .collect();
        let to_remove: Vec<String> = start_modules.iter().take(remove as usize).cloned().collect();
        let response =
            run_as_core(&mut g, &start_modules[0], ExecuteMsg::UpdateGovernanceModules { to_add, to_remove }).unwrap();
        answer(&mut g, response, &mut next);

        let finish_modules = g.query_governance_modules(None, None);
        assert_eq!(finish_modules.len() as u64, start_modules.len() as u64 + add - remove);
        for m in start_modules.into_iter().take(remove as usize) {
            assert!(!finish_modules.contains(&m));
        }
    }
}

#[test]
fn test_update_governance() {
    swap_governance(vec![(1, 1), (5, 0), (0, 5), (0, 0)]);
}

#[test]
fn test_swap_voting_module() {
    let mut g = instantiated_with(1);
    let voting_addr = g.query_voting_module().unwrap();
    let modules = g.query_governance_modules(None, None);
    assert_eq!(modules.len(), 1);
    let response = run_as_core(
        &mut g,
        &modules[0],
        ExecuteMsg::UpdateVotingModule {
            module: ModuleInstantiateInfo {
                code_id: 1,
                msg: b"{}".to_vec(),
                admin: Admin::GovernanceContract {},
                label: "voting module".to_string(),
            },
        },
    )
    .unwrap();
    let mut next = 1000;
    answer(&mut g, response, &mut next);
    let new_voting_addr = g.query_voting_module().unwrap();
    assert_ne!(new_voting_addr, voting_addr);
}

#[test]
fn tests_test_permissions() {
    let mut g = instantiated_with(1);
    let unauthorized = |g: &mut Governance, msg: ExecuteMsg| {
        let err = g.execute(CREATOR_ADDR.to_string(), CORE.to_string(), msg).unwrap_err();
        assert_eq!(err, ContractError::Unauthorized {});
    };
    unauthorized(&mut g, ExecuteMsg::UpdateVotingModule { module: module(1, Admin::GovernanceContract {}) });
    unauthorized(&mut g, ExecuteMsg::UpdateGovernanceModules { to_add: vec![], to_remove: vec![] });
    let evil = || Config { name: "Evil config.".to_string(), description: "👿".to_string(), image_url: None };
    unauthorized(&mut g, ExecuteMsg::UpdateConfig { config: evil() });
    unauthorized(&mut g, ExecuteMsg::UpdateConfig { config: evil() });
}
