//! Voting power from native tokens: an address's power is what it
//! has delegated to validators in the DAO's denomination. Also the
//! messages of the staked native balance voting module.
//!
//! Delegations are asked of the chain by the caller and handed in.
use crate::expiration::Duration;
use crate::names_registry::Coin;
use crate::voting::{ContractVersion, InfoResponse, TotalPowerAtHeightResponse, VotingPowerAtHeightResponse};
use vstd::prelude::*;

verus! {

/// The state of the native token voting module.
#[derive(Clone, Debug, PartialEq, Eq)]
pub struct NativeTokenVoting {
    /// The DAO that created the module.
    pub dao: String,
    pub token_denom: String,
}

/// An amount delegated to a validator.
#[derive(Clone, Debug, PartialEq, Eq)]
pub struct Delegation {
    pub delegator: String,
    pub validator: String,
    pub amount: Coin,
}

/// The amount delegated in the denomination `denom`.
pub open spec fn delegated_in(delegations: Seq<Delegation>, denom: Seq<char>) -> int
    decreases delegations.len(),
{
    if delegations.len() == 0 {
        0
    } else {
        delegated_in(delegations.drop_last(), denom) + if delegations.last().amount.denom@ == denom {
            delegations.last().amount.amount as int
        } else {
            0
        }
    }
}

proof fn lemma_delegated_prefix(delegations: Seq<Delegation>, i: int, denom: Seq<char>)
    requires
        0 <= i <= delegations.len(),
    ensures
        0 <= delegated_in(delegations.subrange(0, i), denom) <= delegated_in(delegations, denom),
    decreases delegations.len(),
{
    if delegations.len() > 0 {
        if i == delegations.len() {
            assert(delegations.subrange(0, i) =~= delegations);
            lemma_delegated_prefix(delegations.drop_last(), i - 1, denom);
        } else {
            assert(delegations.drop_last().subrange(0, i) =~= delegations.subrange(0, i));
            lemma_delegated_prefix(delegations.drop_last(), i, denom);
        }
    }
}

impl NativeTokenVoting {
    /// The module of the DAO `sender`, counting power in `token_denom`.
    pub fn instantiate(sender: String, token_denom: String) -> (r: NativeTokenVoting)
        ensures
            r.dao == sender,
            r.token_denom == token_denom,
    {
        NativeTokenVoting { dao: sender, token_denom }
    }

    /// The power of an address with these delegations, at the current
    /// block height.
    pub fn query_voting_power_at_height(&self, delegations: &Vec<Delegation>, block_height: u64) -> (r: VotingPowerAtHeightResponse)
        requires
            delegated_in(delegations@, self.token_denom@) <= u128::MAX,
        ensures
            r.power == delegated_in(delegations@, self.token_denom@),
            r.height == block_height,
    {
        let mut power: u128 = 0;
        let mut i: usize = 0;
        while i < delegations.len()
            invariant
                i <= delegations@.len(),
                delegated_in(delegations@, self.token_denom@) <= u128::MAX,
                power == delegated_in(delegations@.subrange(0, i as int), self.token_denom@),
            decreases delegations.len() - i,
        {
            proof {
                assert(delegations@.subrange(0, i + 1).drop_last() =~= delegations@.subrange(0, i as int));
                lemma_delegated_prefix(delegations@, i + 1, self.token_denom@);
            }
            if delegations[i].amount.denom == self.token_denom {
                power = power + delegations[i].amount.amount;
            }
            i = i + 1;
        }
        proof {
            assert(delegations@.subrange(0, i as int) =~= delegations@);
        }
        VotingPowerAtHeightResponse { power, height: block_height }
    }

    /// The total power is not tracked: it is always reported as zero.
    pub fn query_total_power_at_height(&self, block_height: u64) -> (r: TotalPowerAtHeightResponse)
        ensures
            r.power == 0,
            r.height == block_height,
    {
        TotalPowerAtHeightResponse { power: 0, height: block_height }
    }

    /// The contract version stored on chain.
    pub fn query_info(&self, version: ContractVersion) -> (r: InfoResponse)
        ensures
            r.info == version,
    {
        InfoResponse { info: version }
    }

    /// The DAO.
    pub fn query_dao(&self) -> (r: String)
        ensures
            r == self.dao,
    {
        self.dao.clone()
    }

    /// The denomination power is counted in.
    pub fn query_token_denom(&self) -> (r: String)
        ensures
            r == self.token_denom,
    {
        self.token_denom.clone()
    }
}

/// Who owns a staked balance voting module.
#[derive(Clone, Debug, PartialEq, Eq)]
pub enum Owner {
    /// This address.
    Addr(String),
    /// Whoever instantiates the module.
    Instantiator {},
}

impl Owner {
    /// The owner's address, where `instantiator` creates the module.
    pub fn resolve(&self, instantiator: &String) -> (r: String)
        ensures
            match self {
                Owner::Addr(a) => r == *a,
                Owner::Instantiator {} => r == *instantiator,
            },
    {
        match self {
            Owner::Addr(a) => a.clone(),
            Owner::Instantiator {} => instantiator.clone(),
        }
    }
}

/// The creation message of a staked balance voting module.
#[derive(Clone, Debug, PartialEq, Eq)]
pub struct InstantiateMsg {
    pub owner: Option<Owner>,
    pub manager: Option<String>,
    pub denom: String,
    pub unstaking_duration: Option<Duration>,
}

/// What a staked balance voting module can be asked to do.
#[derive(Clone, Debug, PartialEq, Eq)]
pub enum ExecuteMsg {
    Stake {},
    Unstake { amount: u128 },
    UpdateConfig { owner: Option<String>, manager: Option<String>, duration: Option<Duration> },
    Claim {},
}

/// Nothing is needed to migrate.
#[derive(Clone, Copy, Debug, PartialEq, Eq, Structural)]
pub struct MigrateMsg {}

/// An address's staked balance.
#[derive(Clone, Debug, PartialEq, Eq)]
pub struct StakerBalanceResponse {
    pub address: String,
    pub balance: u128,
}

#[derive(Clone, Debug, PartialEq, Eq)]
pub struct ListStakersResponse {
    pub stakers: Vec<StakerBalanceResponse>,
}

} // verus!
