//! The stored configuration, ballots and proposals of the single
//! choice proposal module.
use crate::expiration::Duration;
use crate::governance::{wasm_of, ModuleInstantiateInfo, SubMsg};
use crate::hooks::Hooks;
use crate::reply_id::PRE_PROPOSE_MODULE_INSTANTIATION_MASK;
use crate::proposal_single::proposal::{threshold_at_most_one, Proposal};
use crate::table::StrMap;
use crate::threshold::Threshold;
use crate::voting::Vote;
use vstd::prelude::*;

verus! {

/// The default number of items a list query returns.
pub const DEFAULT_LIMIT: u64 = 30;

/// The largest serialized proposal, in bytes, that may be created.
pub const MAX_PROPOSAL_SIZE: u64 = 30_000;

/// Who may create proposals.
#[derive(Clone, Debug, PartialEq, Eq)]
pub enum ProposalCreationPolicy {
    /// Anyone may create a proposal.
    Anyone {},
    /// Only the pre-propose module at this address may.
    Module { addr: String },
}

/// How proposals are to be created: by anyone, or through a pre-propose
/// module that is instantiated for the purpose.
#[derive(Debug)]
pub enum PreProposeInfo {
    /// Anyone may create a proposal.
    AnyoneMayPropose {},
    /// The module described by `info` is instantiated and becomes the
    /// only proposer.
    ModuleMayPropose { info: ModuleInstantiateInfo },
}

/// The policy in force until a pre-propose module is instantiated, and
/// the message that instantiates it, sent by the contract at `contract`
/// and answered on success by the reply that installs the module.
/// Anyone may propose until that reply arrives, so that a failed
/// instantiation leaves proposing open.
pub open spec fn initial_policy_and_messages(info: PreProposeInfo, contract: String) -> (
    ProposalCreationPolicy,
    Option<SubMsg>,
) {
    match info {
        PreProposeInfo::AnyoneMayPropose {} => (ProposalCreationPolicy::Anyone {}, None),
        PreProposeInfo::ModuleMayPropose { info } => (
            ProposalCreationPolicy::Anyone {},
            Some(
                SubMsg {
                    reply_id: PRE_PROPOSE_MODULE_INSTANTIATION_MASK,
                    msg: wasm_of(info, contract),
                },
            ),
        ),
    }
}

impl PreProposeInfo {
    /// The initial policy and the message that instantiates the
    /// pre-propose module, if any, sent by the contract at `contract`.
    pub fn into_initial_policy_and_messages(self, contract: String) -> (r: (
        ProposalCreationPolicy,
        Option<SubMsg>,
    ))
        ensures
            r == initial_policy_and_messages(self, contract),
    {
        match self {
            PreProposeInfo::AnyoneMayPropose {} => (ProposalCreationPolicy::Anyone {}, None),
            PreProposeInfo::ModuleMayPropose { info } => (
                ProposalCreationPolicy::Anyone {},
                Some(
                    SubMsg {
                        reply_id: PRE_PROPOSE_MODULE_INSTANTIATION_MASK,
                        msg: info.into_wasm_msg(contract),
                    },
                ),
            ),
        }
    }
}

impl ProposalCreationPolicy {
    pub open spec fn permits(self, who: Seq<char>) -> bool {
        match self {
            ProposalCreationPolicy::Anyone {} => true,
            ProposalCreationPolicy::Module { addr } => addr@ == who,
        }
    }

    pub open spec fn is_module(self, who: Seq<char>) -> bool {
        match self {
            ProposalCreationPolicy::Anyone {} => false,
            ProposalCreationPolicy::Module { addr } => addr@ == who,
        }
    }

    /// Whether `who` may create a proposal.
    pub fn is_permitted(&self, who: &String) -> (b: bool)
        ensures
            b == self.permits(who@),
    {
        match self {
            ProposalCreationPolicy::Anyone {} => true,
            ProposalCreationPolicy::Module { addr } => *addr == *who,
        }
    }

    /// Whether `who` is the pre-propose module of this policy.
    pub fn addr_is_my_module(&self, who: &String) -> (b: bool)
        ensures
            b == self.is_module(who@),
    {
        match self {
            ProposalCreationPolicy::Anyone {} => false,
            ProposalCreationPolicy::Module { addr } => *addr == *who,
        }
    }
}

/// A vote cast on a proposal.
#[derive(Clone, Copy, Debug, PartialEq, Eq, Structural)]
pub struct Ballot {
    /// The voting power behind the vote.
    pub power: u128,
    /// The position.
    pub vote: Vote,
}

impl crate::table::Duplicate for Ballot {
    fn duplicate(&self) -> (r: Ballot) {
        *self
    }
}

/// The proposal module's configuration.
#[derive(Clone, Debug, PartialEq, Eq)]
pub struct Config {
    /// The threshold a proposal must reach to complete.
    pub threshold: Threshold,
    /// How long a proposal may be voted on before it expires.
    pub max_voting_period: Duration,
    /// How long a proposal must be open before it may pass.
    pub min_voting_period: Option<Duration>,
    /// If set, only members may execute passed proposals.
    pub only_members_execute: bool,
    /// Allows changing votes before the proposal expires.
    pub allow_revoting: bool,
    /// The DAO this module belongs to.
    pub dao: String,
    /// If set, proposals whose execution fails are marked so.
    pub close_proposal_on_execution_failure: bool,
    /// Who may create proposals.
    pub proposal_creation_policy: ProposalCreationPolicy,
}

/// Information about a vote that was cast.
#[derive(Clone, Debug, PartialEq, Eq)]
pub struct VoteInfo {
    pub voter: String,
    pub vote: Vote,
    pub power: u128,
}

/// A bound on proposal ids.
#[derive(Clone, Copy, Debug, PartialEq, Eq, Structural)]
pub enum Bound {
    Inclusive(u64),
    Exclusive(u64),
}

/// The order in which ids are listed.
#[derive(Clone, Copy, Debug, PartialEq, Eq, Structural)]
pub enum Order {
    Ascending,
    Descending,
}

/// `id` is within the lower bound `min` and the upper bound `max`.
pub open spec fn in_bounds(id: u64, min: Option<Bound>, max: Option<Bound>) -> bool {
    &&& match min {
        None => true,
        Some(Bound::Inclusive(m)) => id >= m,
        Some(Bound::Exclusive(m)) => id > m,
    }
    &&& match max {
        None => true,
        Some(Bound::Inclusive(m)) => id <= m,
        Some(Bound::Exclusive(m)) => id < m,
    }
}

fn within(id: u64, min: Option<Bound>, max: Option<Bound>) -> (r: bool)
    ensures
        r == in_bounds(id, min, max),
{
    let lo = match min {
        None => true,
        Some(Bound::Inclusive(m)) => id >= m,
        Some(Bound::Exclusive(m)) => id > m,
    };
    let hi = match max {
        None => true,
        Some(Bound::Inclusive(m)) => id <= m,
        Some(Bound::Exclusive(m)) => id < m,
    };
    lo && hi
}

/// The ballots `w` cast on the first proposals of `s` whose ids are
/// within the bounds, by ascending id; the proposal at position `i` has
/// id `i + 1`.
pub open spec fn wallet_ballots(s: Seq<StrMap<Ballot>>, w: Seq<char>, min: Option<Bound>, max: Option<Bound>) -> Seq<(u64, Ballot)>
    decreases s.len(),
{
    if s.len() == 0 {
        Seq::empty()
    } else {
        let rest = wallet_ballots(s.drop_last(), w, min, max);
        let id = s.len() as u64;
        match s.last().get_spec(w) {
            Some(b) => if in_bounds(id, min, max) {
                rest.push((id, b))
            } else {
                rest
            },
            None => rest,
        }
    }
}

/// The ballots of every proposal, by proposal and voter: the ballots of
/// the proposal with id `i` (counting from 1) are `by_proposal[i - 1]`.
pub struct Ballots {
    pub by_proposal: Vec<StrMap<Ballot>>,
}

impl Ballots {
    /// The ballot `voter` cast on proposal `id`, if any.
    pub open spec fn ballot_of(&self, id: u64, voter: Seq<char>) -> Option<Ballot> {
        if 1 <= id <= self.by_proposal@.len() {
            self.by_proposal@[id - 1].get_spec(voter)
        } else {
            None
        }
    }

    /// Records `ballot` as the vote of `k.1` on proposal `k.0`, replacing
    /// any earlier one, and gives it back.
    pub fn update(&mut self, k: (u64, String), ballot: Ballot) -> (r: Ballot)
        requires
            1 <= k.0 <= old(self).by_proposal@.len(),
        ensures
            r == ballot,
            final(self).by_proposal@.len() == old(self).by_proposal@.len(),
            forall|j: int| 0 <= j < old(self).by_proposal@.len() && j != k.0 - 1 ==> #[trigger] final(self).by_proposal@[j] == old(self).by_proposal@[j],
            forall|v: Seq<char>| #[trigger]
                final(self).by_proposal@[k.0 - 1].get_spec(v) == if v == k.1@ {
                    Some(ballot)
                } else {
                    old(self).by_proposal@[k.0 - 1].get_spec(v)
                },
            old(self).by_proposal@[k.0 - 1].get_spec(k.1@) is None ==> final(self).by_proposal@[k.0 - 1].entries@
                == old(self).by_proposal@[k.0 - 1].entries@.push((k.1, ballot)),
            old(self).by_proposal@[k.0 - 1].get_spec(k.1@) is Some ==> exists|i: int|
                0 <= i < old(self).by_proposal@[k.0 - 1].entries@.len() && (#[trigger] old(self).by_proposal@[k.0 - 1].entries@[i]).0@ == k.1@
                    && old(self).by_proposal@[k.0 - 1].get_spec(k.1@) == Some(old(self).by_proposal@[k.0 - 1].entries@[i].1)
                    && final(self).by_proposal@[k.0 - 1].entries@ == old(self).by_proposal@[k.0 - 1].entries@.update(i, (k.1, ballot)),
    {
        let n = self.by_proposal.len();
        let i = (k.0 - 1) as usize;
        assert(i == k.0 - 1);
        self.by_proposal[i].insert(k.1, ballot);
        ballot
    }

    /// The ballot `k.1` cast on proposal `k.0`, if any.
    pub fn may_load(&self, k: (u64, String)) -> (r: Option<Ballot>)
        ensures
            r == self.ballot_of(k.0, k.1@),
    {
        let n = self.by_proposal.len();
        if k.0 == 0 || k.0 > n as u64 {
            return None;
        }
        let i = (k.0 - 1) as usize;
        assert(i == k.0 - 1);
        self.by_proposal[i].get(&k.1)
    }

    /// The ballots of proposal `id`, by voter, if the proposal exists.
    pub fn prefix(&self, id: u64) -> (r: Option<&StrMap<Ballot>>)
        ensures
            1 <= id <= self.by_proposal@.len() ==> r == Some(&self.by_proposal@[id - 1]),
            !(1 <= id <= self.by_proposal@.len()) ==> r is None,
    {
        let n = self.by_proposal.len();
        if id == 0 || id > n as u64 {
            return None;
        }
        let i = (id - 1) as usize;
        assert(i == id - 1);
        Some(&self.by_proposal[i])
    }

    /// The ballots `wallet` cast, with their proposal ids, for the ids
    /// within the bounds, in the order asked for.
    pub fn range_by_wallet(&self, wallet: &String, min: Option<Bound>, max: Option<Bound>, order: Order) -> (r: Vec<(u64, Ballot)>)
        requires
            self.by_proposal@.len() <= u64::MAX,
        ensures
            order == Order::Ascending ==> r@ == wallet_ballots(self.by_proposal@, wallet@, min, max),
            order == Order::Descending ==> r@ == wallet_ballots(self.by_proposal@, wallet@, min, max).reverse(),
    {
        let mut asc: Vec<(u64, Ballot)> = Vec::new();
        let mut i: usize = 0;
        while i < self.by_proposal.len()
            invariant
                i <= self.by_proposal@.len(),
                self.by_proposal@.len() <= u64::MAX,
                asc@ == wallet_ballots(self.by_proposal@.subrange(0, i as int), wallet@, min, max),
            decreases self.by_proposal.len() - i,
        {
            proof {
                assert(self.by_proposal@.subrange(0, i + 1).drop_last() =~= self.by_proposal@.subrange(0, i as int));
                assert(self.by_proposal@.subrange(0, i + 1).last() == self.by_proposal@[i as int]);
            }
            let id = (i + 1) as u64;
            match self.by_proposal[i].get(wallet) {
                Some(b) => {
                    if within(id, min, max) {
                        asc.push((id, b));
                    }
                },
                None => {},
            }
            i = i + 1;
        }
        proof {
            assert(self.by_proposal@.subrange(0, i as int) =~= self.by_proposal@);
        }
        match order {
            Order::Ascending => asc,
            Order::Descending => {
                let mut desc: Vec<(u64, Ballot)> = Vec::new();
                let mut j: usize = asc.len();
                while j > 0
                    invariant
                        j <= asc@.len(),
                        desc@ == asc@.reverse().subrange(0, (asc@.len() - j) as int),
                    decreases j,
                {
                    j = j - 1;
                    desc.push(asc[j]);
                    proof {
                        assert(desc@ =~= asc@.reverse().subrange(0, (asc@.len() - j) as int));
                    }
                }
                proof {
                    assert(asc@.reverse().subrange(0, asc@.len() as int) =~= asc@.reverse());
                }
                desc
            },
        }
    }
}

/// Everything the module stores. The proposal with id `i` (counting
/// from 1) is `proposals[i - 1]`, and its ballots, by voter, are
/// `ballots[i - 1]`.
pub struct ModuleState {
    pub config: Config,
    pub proposal_count: u64,
    pub proposals: Vec<Proposal>,
    pub ballots: Ballots,
    /// Receivers of proposal status change hooks.
    pub proposal_hooks: Hooks,
    /// Receivers of vote hooks.
    pub vote_hooks: Hooks,
}

impl ModuleState {
    /// Every proposal id up to the count is stored, every stored
    /// proposal is well formed and the configured threshold is valid.
    pub open spec fn wf(&self) -> bool {
        &&& self.proposals@.len() == self.proposal_count
        &&& self.ballots.by_proposal@.len() == self.proposal_count
        &&& threshold_at_most_one(self.config.threshold)
        &&& forall|i: int| 0 <= i < self.proposals@.len() ==> #[trigger] self.proposals@[i].wf()
    }

    pub open spec fn has_proposal(&self, id: u64) -> bool {
        1 <= id <= self.proposal_count
    }

    pub open spec fn proposal(&self, id: u64) -> Proposal {
        self.proposals@[id - 1]
    }

    pub open spec fn ballot(&self, id: u64, voter: Seq<char>) -> Option<Ballot> {
        self.ballots.by_proposal@[id - 1].get_spec(voter)
    }
}

} // verus!
