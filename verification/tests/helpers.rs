use dao_contracts::hooks::{HookError, Hooks};
use dao_contracts::key_order::key_less;
use dao_contracts::math::{div_wide, mul_wide};
use dao_contracts::native_voting::{Delegation, NativeTokenVoting, Owner};
use dao_contracts::names_registry::Coin;
use dao_contracts::pre_propose::{internalize, Empty, ExecuteMsg, ProposeMessage, ProposeMessageInternal};
use dao_contracts::voting::{MultipleChoiceVote, MultipleChoiceVotes, Vote, Votes};

#[test]
fn wide_multiplication_and_division() {
    assert_eq!(mul_wide(u128::MAX, u128::MAX), (u128::MAX - 1, 1));
    assert_eq!(mul_wide(3, 5), (0, 15));
    assert_eq!(div_wide((0, 15), 4), (3, 3));
    assert_eq!(div_wide((1, 0), 2), (1u128 << 127, 0));
    let (hi, lo) = mul_wide(u128::MAX, 10);
    assert_eq!(div_wide((hi, lo), 20), (u128::MAX / 2, 10));
}

#[test]
fn keys_order_by_bytes() {
    assert!(key_less(&"a".to_string(), &"b".to_string()));
    assert!(key_less(&"a".to_string(), &"ab".to_string()));
    assert!(!key_less(&"b".to_string(), &"ab".to_string()));
    assert!(!key_less(&"a".to_string(), &"a".to_string()));
    assert!(key_less(&"Z".to_string(), &"a".to_string()));
    assert!(key_less(&"".to_string(), &"a".to_string()));
}

#[test]
fn hooks_refuse_duplicates_and_missing() {
    let mut h = Hooks::new();
    h.add_hook("a".to_string()).unwrap();
    assert_eq!(h.add_hook("a".to_string()), Err(HookError::HookAlreadyRegistered {}));
    assert_eq!(h.remove_hook(&"b".to_string()), Err(HookError::HookNotRegistered {}));
    h.remove_hook(&"a".to_string()).unwrap();
    assert_eq!(h.len(), 0);
}

#[test]
fn removing_a_vote_undoes_adding_it() {
    let mut v = Votes::zero();
    v.add_vote(Vote::Yes, 7);
    v.add_vote(Vote::No, 3);
    let before = v;
    v.add_vote(Vote::Abstain, 5);
    v.remove_vote(Vote::Abstain, 5);
    assert_eq!(v, before);
    assert_eq!(v.total(), 10);

    let mut m = MultipleChoiceVotes::zero(3);
    m.add_vote(MultipleChoiceVote { option_id: 1 }, 4).unwrap();
    assert!(m.add_vote(MultipleChoiceVote { option_id: 2 }, u128::MAX).is_ok());
    assert!(m.add_vote(MultipleChoiceVote { option_id: 2 }, 1).is_err());
    m.remove_vote(MultipleChoiceVote { option_id: 2 }, u128::MAX);
    m.remove_vote(MultipleChoiceVote { option_id: 1 }, 4);
    assert_eq!(m.total(), 0);
}

#[test]
fn native_power_counts_the_denomination() {
    let voting = NativeTokenVoting::instantiate("dao".to_string(), "ujuno".to_string());
    let delegations = vec![
        Delegation { delegator: "a".to_string(), validator: "v1".to_string(), amount: Coin { denom: "ujuno".to_string(), amount: 10 } },
        Delegation { delegator: "a".to_string(), validator: "v2".to_string(), amount: Coin { denom: "uatom".to_string(), amount: 99 } },
        Delegation { delegator: "a".to_string(), validator: "v3".to_string(), amount: Coin { denom: "ujuno".to_string(), amount: 5 } },
    ];
    let r = voting.query_voting_power_at_height(&delegations, 77);
    assert_eq!(r.power, 15);
    assert_eq!(r.height, 77);
    assert_eq!(voting.query_total_power_at_height(77).power, 0);
    assert_eq!(voting.query_dao(), "dao");
    assert_eq!(voting.query_token_denom(), "ujuno");
    assert_eq!(Owner::Instantiator {}.resolve(&"me".to_string()), "me");
    assert_eq!(Owner::Addr("x".to_string()).resolve(&"me".to_string()), "x");
}

#[test]
fn pre_propose_fills_in_the_proposer() {
    let msg: ExecuteMsg<ProposeMessage, Empty> = ExecuteMsg::Propose {
        msg: ProposeMessage::Propose { title: "t".to_string(), description: "d".to_string(), msgs: vec![] },
    };
    let internal = internalize(msg, "alice".to_string());
    assert_eq!(
        internal,
        ExecuteMsg::Propose {
            msg: ProposeMessageInternal::Propose {
                title: "t".to_string(),
                description: "d".to_string(),
                msgs: vec![],
                proposer: Some("alice".to_string()),
            },
        }
    );
    assert_eq!(internalize(ExecuteMsg::Ext { msg: Empty {} }, "bob".to_string()), ExecuteMsg::Ext { msg: Empty {} });
}
