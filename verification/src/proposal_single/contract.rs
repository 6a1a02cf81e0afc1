//! The messages the single choice proposal module answers: creating,
//! voting on, executing and closing proposals, changing its
//! configuration and hooks, handling replies, and queries.
//!
//! Every handler either returns an error and leaves the state as it
//! was, or applies its whole change. What other contracts answer (the
//! DAO's activity, voting powers, the serialized size of a proposal)
//! is handed in by the caller.
use crate::expiration::{BlockInfo, Duration, Expiration, Timestamp};
use crate::governance::SubMsg;
use crate::hooks::{HookError, Hooks};
use crate::proposal_single::error::ContractError;
use crate::proposal_single::messages::{
    hook_notices, new_proposal_hooks, new_vote_hooks, notices, proposal_status_changed_hooks,
    status_change_notices, ExecutionMsg, HookMsg, HookSubMsg,
};
use crate::proposal_single::msg::MigrateMsg;
use crate::reply::{parse_reply_instantiate_data, reply_address};
use crate::reply_id::{
    mask_proposal_execution_proposal_id, mask_proposal_hook_index, mask_vote_hook_index, masked,
    pre_propose_module_instantiation_id, spec_tag, ReplyTag, FAILED_PROPOSAL_EXECUTION_MASK,
    FAILED_PROPOSAL_HOOK_MASK, FAILED_VOTE_HOOK_MASK, PRE_PROPOSE_MODULE_INSTANTIATION_MASK,
};
use crate::proposal_single::proposal::{
    advance_proposal_id, copy_strings, lemma_same_status, threshold_at_most_one, Proposal, ProposalResponse,
};
use crate::proposal_single::state::{
    initial_policy_and_messages, Ballot, Ballots, Config, ModuleState, PreProposeInfo, ProposalCreationPolicy, VoteInfo, DEFAULT_LIMIT,
    MAX_PROPOSAL_SIZE,
};
use crate::proposal_single::utils::{validate_voting_period, voting_period_error};
use crate::status::Status;
use crate::std_error::StdError;
use crate::table::{lookup, opt_string, StrMap};
use crate::threshold::{as_result, threshold_error, Threshold};
use crate::voting::{ContractVersion, InfoResponse, Vote, Votes};
use vstd::prelude::*;

verus! {

/// The power behind position `pos` among a list of ballots.
pub open spec fn ballot_total(s: Seq<(String, Ballot)>, pos: Vote) -> int
    decreases s.len(),
{
    if s.len() == 0 {
        0
    } else {
        ballot_total(s.drop_last(), pos) + contribution(s.last().1, pos)
    }
}

pub open spec fn contribution(b: Ballot, pos: Vote) -> int {
    if b.vote == pos {
        b.power as int
    } else {
        0
    }
}

proof fn lemma_ballot_total_update(s: Seq<(String, Ballot)>, i: int, e: (String, Ballot), pos: Vote)
    requires
        0 <= i < s.len(),
    ensures
        ballot_total(s.update(i, e), pos) == ballot_total(s, pos) - contribution(s[i].1, pos)
            + contribution(e.1, pos),
    decreases s.len(),
{
    if i < s.len() - 1 {
        assert(s.update(i, e).drop_last() =~= s.drop_last().update(i, e));
        lemma_ballot_total_update(s.drop_last(), i, e, pos);
    } else {
        assert(s.update(i, e).drop_last() =~= s.drop_last());
    }
}

proof fn lemma_ballot_total_push(s: Seq<(String, Ballot)>, e: (String, Ballot), pos: Vote)
    ensures
        ballot_total(s.push(e), pos) == ballot_total(s, pos) + contribution(e.1, pos),
{
    assert(s.push(e).drop_last() =~= s);
}

proof fn lemma_ballot_total_entry(s: Seq<(String, Ballot)>, i: int, pos: Vote)
    requires
        0 <= i < s.len(),
    ensures
        contribution(s[i].1, pos) <= ballot_total(s, pos),
        0 <= ballot_total(s, pos),
    decreases s.len(),
{
    lemma_ballot_total_nonneg(s.drop_last(), pos);
    if i < s.len() - 1 {
        lemma_ballot_total_entry(s.drop_last(), i, pos);
    }
}

proof fn lemma_ballot_total_nonneg(s: Seq<(String, Ballot)>, pos: Vote)
    ensures
        0 <= ballot_total(s, pos),
    decreases s.len(),
{
    if s.len() > 0 {
        lemma_ballot_total_nonneg(s.drop_last(), pos);
    }
}

/// The tally of a proposal is the sum of the ballots recorded for it.
pub open spec fn tally_matches(votes: Votes, ballots: StrMap<Ballot>) -> bool {
    &&& votes.yes == ballot_total(ballots.entries@, Vote::Yes)
    &&& votes.no == ballot_total(ballots.entries@, Vote::No)
    &&& votes.abstain == ballot_total(ballots.entries@, Vote::Abstain)
}

impl ModuleState {
    /// The state is well formed and every proposal's tally is the sum of
    /// its recorded ballots.
    pub open spec fn inv(&self) -> bool {
        &&& self.wf()
        &&& forall|i: int|
            0 <= i < self.proposals@.len() ==> tally_matches(
                #[trigger] self.proposals@[i].votes,
                self.ballots.by_proposal@[i],
            )
    }
}

/// The message that sets up a proposal module.
pub struct InstantiateMsg {
    pub threshold: Threshold,
    pub max_voting_period: Duration,
    pub min_voting_period: Option<Duration>,
    pub only_members_execute: bool,
    pub allow_revoting: bool,
    pub close_proposal_on_execution_failure: bool,
    /// How proposals are to be created.
    pub pre_propose_info: PreProposeInfo,
}

/// The message that replaces the configuration of a proposal module.
pub struct UpdateConfigMsg {
    pub threshold: Threshold,
    pub max_voting_period: Duration,
    pub min_voting_period: Option<Duration>,
    pub only_members_execute: bool,
    pub allow_revoting: bool,
    /// The DAO the module belongs to from now on.
    pub dao: String,
    pub close_proposal_on_execution_failure: bool,
    /// How proposals are to be created from now on.
    pub pre_propose_info: PreProposeInfo,
}

/// The error, if any, of a threshold and voting periods.
pub open spec fn config_error(t: Threshold, min: Option<Duration>, max: Duration) -> Option<
    ContractError,
> {
    match threshold_error(t) {
        Some(e) => Some(ContractError::ThresholdError(e)),
        None => voting_period_error(min, max),
    }
}

fn validate_config(t: &Threshold, min: Option<Duration>, max: Duration) -> (r: Result<
    (),
    ContractError,
>)
    ensures
        r == match config_error(*t, min, max) {
            Some(e) => Err(e),
            None => Ok(()),
        },
        r is Ok ==> threshold_at_most_one(*t),
{
    match t.validate() {
        Err(e) => {
            return Err(ContractError::ThresholdError(e));
        },
        Ok(()) => {},
    }
    match validate_voting_period(min, max) {
        Err(e) => Err(e),
        Ok(_) => Ok(()),
    }
}

/// Sets up a proposal module, at address `contract`, for the DAO
/// `sender`. Gives back the module and the message that instantiates
/// its pre-propose module, if one is asked for; until the reply to that
/// message arrives anyone may propose.
pub fn instantiate(sender: String, contract: String, msg: InstantiateMsg) -> (r: Result<
    (ModuleState, Option<SubMsg>),
    ContractError,
>)
    ensures
        match config_error(msg.threshold, msg.min_voting_period, msg.max_voting_period) {
            Some(e) => r == Err::<(ModuleState, Option<SubMsg>), ContractError>(e),
            None => {
                let (policy, instantiation) = initial_policy_and_messages(msg.pre_propose_info, contract);
                r matches Ok((s, m)) && m == instantiation && s.inv() && s.proposal_count == 0
                    && s.config == (Config {
                    threshold: msg.threshold,
                    max_voting_period: msg.max_voting_period,
                    min_voting_period: msg.min_voting_period,
                    only_members_execute: msg.only_members_execute,
                    allow_revoting: msg.allow_revoting,
                    dao: sender,
                    close_proposal_on_execution_failure: msg.close_proposal_on_execution_failure,
                    proposal_creation_policy: policy,
                }) && s.proposal_hooks.view().len() == 0 && s.vote_hooks.view().len() == 0
            },
        },
{
    match validate_config(&msg.threshold, msg.min_voting_period, msg.max_voting_period) {
        Err(e) => {
            return Err(e);
        },
        Ok(()) => {},
    }
    let (policy, instantiation) = msg.pre_propose_info.into_initial_policy_and_messages(contract);
    let config = Config {
        threshold: msg.threshold,
        max_voting_period: msg.max_voting_period,
        min_voting_period: msg.min_voting_period,
        only_members_execute: msg.only_members_execute,
        allow_revoting: msg.allow_revoting,
        dao: sender,
        close_proposal_on_execution_failure: msg.close_proposal_on_execution_failure,
        proposal_creation_policy: policy,
    };
    Ok(
        (
            ModuleState {
                config,
                proposal_count: 0,
                proposals: Vec::new(),
                ballots: Ballots { by_proposal: Vec::new() },
                proposal_hooks: Hooks::new(),
                vote_hooks: Hooks::new(),
            },
            instantiation,
        ),
    )
}

/// The end of the minimum voting period, if one is configured, can be
/// computed from `block`.
pub open spec fn min_period_fits(min: Option<Duration>, block: BlockInfo) -> bool {
    match min {
        Some(d) => d.fits_after(block),
        None => true,
    }
}

/// The proposal a module would create for `proposer` at `block`, with
/// its status brought up to date.
pub open spec fn spec_new_proposal(
    config: Config,
    proposer: String,
    title: String,
    description: String,
    msgs: Seq<String>,
    block: BlockInfo,
    total_power: u128,
) -> Proposal {
    let p = Proposal {
        title,
        description,
        proposer,
        start_height: block.height,
        min_voting_period: match config.min_voting_period {
            Some(d) => Some(d.spec_after(block)),
            None => None,
        },
        expiration: config.max_voting_period.spec_after(block),
        threshold: config.threshold,
        total_power,
        msgs: arbitrary(),
        status: Status::Open,
        votes: Votes { yes: 0, no: 0, abstain: 0 },
        allow_revoting: config.allow_revoting,
        created: block.time,
        last_updated: block.time,
        deposit_info: None,
    };
    Proposal { status: p.spec_current_status(block), ..p }
}

/// The new proposal equals `spec_new_proposal` with the messages `msgs`.
pub open spec fn is_new_proposal(
    p: Proposal,
    config: Config,
    proposer: String,
    title: String,
    description: String,
    msgs: Seq<String>,
    block: BlockInfo,
    total_power: u128,
) -> bool {
    let q = spec_new_proposal(config, proposer, title, description, msgs, block, total_power);
    p == (Proposal { msgs: p.msgs, ..q }) && p.msgs@ == msgs
}

/// The error, if any, of creating a proposal.
pub open spec fn propose_error(
    s: ModuleState,
    sender: Seq<char>,
    dao_active: bool,
    proposal_size: u64,
) -> Option<ContractError> {
    if !s.config.proposal_creation_policy.permits(sender) {
        Some(ContractError::Unauthorized {})
    } else if !dao_active {
        Some(ContractError::InactiveDao {})
    } else if proposal_size > MAX_PROPOSAL_SIZE {
        Some(ContractError::ProposalTooLarge { size: proposal_size, max: MAX_PROPOSAL_SIZE })
    } else {
        None
    }
}

impl ModuleState {
    /// The proposal this module would create for `sender` at `block`
    /// when the DAO's total voting power is `total_power`.
    pub fn build_proposal(
        &self,
        sender: &String,
        title: String,
        description: String,
        msgs: &Vec<String>,
        block: &BlockInfo,
        total_power: u128,
    ) -> (p: Proposal)
        requires
            self.wf(),
            self.config.max_voting_period.fits_after(*block),
            min_period_fits(self.config.min_voting_period, *block),
        ensures
            is_new_proposal(
                p,
                self.config,
                *sender,
                title,
                description,
                msgs@,
                *block,
                total_power,
            ),
            p.wf(),
    {
        let min_voting_period = match self.config.min_voting_period {
            Some(d) => Some(d.after(block)),
            None => None,
        };
        let mut p = Proposal {
            title,
            description,
            proposer: sender.clone(),
            start_height: block.height,
            min_voting_period,
            expiration: self.config.max_voting_period.after(block),
            threshold: self.config.threshold,
            total_power,
            msgs: copy_strings(msgs),
            status: Status::Open,
            votes: Votes::zero(),
            allow_revoting: self.config.allow_revoting,
            created: block.time,
            last_updated: block.time,
            deposit_info: None,
        };
        p.update_status(block);
        p
    }

    /// Creates a proposal. `dao_active` is whether the DAO's voting
    /// module reports itself active, `total_power` the DAO's total voting
    /// power at `block`, and `proposal_size` the size in bytes of the
    /// serialized proposal that `build_proposal` gives for these
    /// arguments. Gives back the new proposal's id and the notices to the
    /// proposal hooks.
    pub fn execute_propose(
        &mut self,
        sender: &String,
        title: String,
        description: String,
        msgs: &Vec<String>,
        block: &BlockInfo,
        dao_active: bool,
        total_power: u128,
        proposal_size: u64,
    ) -> (r: Result<(u64, Vec<HookSubMsg>), ContractError>)
        requires
            old(self).inv(),
            old(self).config.max_voting_period.fits_after(*block),
            min_period_fits(old(self).config.min_voting_period, *block),
            old(self).proposal_count < u64::MAX,
        ensures
            final(self).inv(),
            match propose_error(*old(self), sender@, dao_active, proposal_size) {
                Some(e) => r == Err::<(u64, Vec<HookSubMsg>), ContractError>(e) && *final(self) == *old(self),
                None => {
                    &&& r matches Ok((id, hooks)) && id == old(self).proposal_count + 1 && notices(hooks@)
                        == hook_notices(
                        old(self).proposal_hooks.view(),
                        HookMsg::NewProposal { id, proposer: *sender },
                        false,
                    )
                    &&& final(self).proposal_count == old(self).proposal_count + 1
                    &&& final(self).proposals@.len() == old(self).proposals@.len() + 1
                    &&& final(self).proposals@.subrange(0, old(self).proposals@.len() as int)
                        == old(self).proposals@
                    &&& is_new_proposal(
                        final(self).proposals@.last(),
                        old(self).config,
                        *sender,
                        title,
                        description,
                        msgs@,
                        *block,
                        total_power,
                    )
                    &&& final(self).ballots.by_proposal@.subrange(0, old(self).ballots.by_proposal@.len() as int)
                        == old(self).ballots.by_proposal@
                    &&& forall|k: Seq<char>| #[trigger]
                        final(self).ballots.by_proposal@.last().get_spec(k) is None
                    &&& final(self).config == old(self).config
                    &&& final(self).proposal_hooks == old(self).proposal_hooks
                    &&& final(self).vote_hooks == old(self).vote_hooks
                },
            },
    {
        if !self.config.proposal_creation_policy.is_permitted(sender) {
            return Err(ContractError::Unauthorized {});
        }
        if !dao_active {
            return Err(ContractError::InactiveDao {});
        }
        let proposal = self.build_proposal(sender, title, description, msgs, block, total_power);
        if proposal_size > MAX_PROPOSAL_SIZE {
            return Err(ContractError::ProposalTooLarge { size: proposal_size, max: MAX_PROPOSAL_SIZE });
        }
        let id = advance_proposal_id(&mut self.proposal_count);
        let ghost old_props = self.proposals@;
        let ghost old_ballots = self.ballots.by_proposal@;
        self.proposals.push(proposal);
        let empty: StrMap<Ballot> = StrMap::new();
        self.ballots.by_proposal.push(empty);
        proof {
            assert(self.proposals@.subrange(0, old_props.len() as int) =~= old_props);
            assert(self.ballots.by_proposal@.subrange(0, old_ballots.len() as int) =~= old_ballots);
            assert forall|i: int| 0 <= i < self.proposals@.len() implies #[trigger] self.proposals@[
                i
            ].wf() && tally_matches(self.proposals@[i].votes, self.ballots.by_proposal@[i]) by {
                if i < old_props.len() {
                    assert(self.proposals@[i] == old_props[i]);
                    assert(self.ballots.by_proposal@[i] == old_ballots[i]);
                } else {
                    assert(self.ballots.by_proposal@[i].entries@.len() == 0);
                }
            }
        }
        let hooks = new_proposal_hooks(&self.proposal_hooks, id, sender);
        Ok((id, hooks))
    }
}

/// The tally with the voter's earlier ballot, if any, taken out.
pub open spec fn tally_without_ballot(votes: Votes, old_ballot: Option<Ballot>) -> Votes {
    match old_ballot {
        Some(b) => votes.spec_added(b.vote, -b.power),
        None => votes,
    }
}

/// The tally a vote leaves: the voter's earlier ballot, if any, taken
/// out and the new vote counted.
pub open spec fn tally_after_vote(
    votes: Votes,
    old_ballot: Option<Ballot>,
    vote: Vote,
    power: u128,
) -> Votes {
    tally_without_ballot(votes, old_ballot).spec_added(vote, power as int)
}

/// The error, if any, of a vote.
pub open spec fn vote_error(
    s: ModuleState,
    voter: Seq<char>,
    id: u64,
    vote: Vote,
    power: u128,
    block: BlockInfo,
) -> Option<ContractError> {
    if !s.has_proposal(id) {
        Some(ContractError::NoSuchProposal { id })
    } else if s.proposal(id).spec_current_status(block) != Status::Open {
        Some(ContractError::NotOpen { id })
    } else if power == 0 {
        Some(ContractError::NotRegistered {})
    } else {
        match s.ballot(id, voter) {
            Some(b) => if s.proposal(id).allow_revoting {
                if b.vote == vote {
                    Some(ContractError::AlreadyCast {})
                } else {
                    None
                }
            } else {
                Some(ContractError::AlreadyVoted {})
            },
            None => None,
        }
    }
}

impl ModuleState {
    /// Records `voter`'s vote on proposal `id` with `power`, the voter's
    /// voting power when the proposal was created. With revoting
    /// allowed, a different position replaces the voter's earlier
    /// ballot. Gives back the proposal's status after the vote and the
    /// notices to the hooks: of the change of status, if any, then of
    /// the vote.
    ///
    /// A vote that is counted must keep the proposal's tally within its
    /// total power. The voting powers and the total power are both taken
    /// at the proposal's start height, so votes never add up to more;
    /// the status rules subtract votes from the total power and count on
    /// it.
    pub fn execute_vote(
        &mut self,
        voter: &String,
        id: u64,
        vote: Vote,
        power: u128,
        block: &BlockInfo,
    ) -> (r: Result<(Status, Vec<HookSubMsg>), ContractError>)
        requires
            old(self).inv(),
            vote_error(*old(self), voter@, id, vote, power, *block) is None ==> tally_without_ballot(
                old(self).proposal(id).votes,
                old(self).ballot(id, voter@),
            ).spec_total() + power <= old(self).proposal(id).total_power,
        ensures
            final(self).inv(),
            match vote_error(*old(self), voter@, id, vote, power, *block) {
                Some(e) => r == Err::<(Status, Vec<HookSubMsg>), ContractError>(e) && *final(self) == *old(self),
                None => {
                    let p = old(self).proposal(id);
                    let tallied = Proposal {
                        votes: tally_after_vote(p.votes, old(self).ballot(id, voter@), vote, power),
                        ..p
                    };
                    let q = Proposal { status: tallied.spec_current_status(*block), ..tallied };
                    &&& r matches Ok((status, hooks)) && status == q.status && notices(hooks@)
                        == status_change_notices(old(self).proposal_hooks.view(), id, p.status, q.status)
                        + hook_notices(
                        old(self).vote_hooks.view(),
                        HookMsg::NewVote { proposal_id: id, voter: *voter, vote },
                        true,
                    )
                    &&& final(self).proposals@ == old(self).proposals@.update(id - 1, q)
                    &&& final(self).proposal_count == old(self).proposal_count
                    &&& final(self).ballots.by_proposal@.len() == old(self).ballots.by_proposal@.len()
                    &&& forall|j: int|
                        0 <= j < old(self).ballots.by_proposal@.len() && j != id - 1 ==> #[trigger] final(self).ballots.by_proposal@[j] == old(self).ballots.by_proposal@[j]
                    &&& forall|k: Seq<char>| #[trigger]
                        final(self).ballot(id, k) == if k == voter@ {
                            Some(Ballot { power, vote })
                        } else {
                            old(self).ballot(id, k)
                        }
                    &&& final(self).config == old(self).config
                    &&& final(self).proposal_hooks == old(self).proposal_hooks
                    &&& final(self).vote_hooks == old(self).vote_hooks
                },
            },
    {
        if id == 0 || id > self.proposal_count {
            return Err(ContractError::NoSuchProposal { id });
        }
        let n = self.proposals.len();
        let i = (id - 1) as usize;
        assert(i == id - 1);
        if self.proposals[i].current_status(block) != Status::Open {
            return Err(ContractError::NotOpen { id });
        }
        if power == 0 {
            return Err(ContractError::NotRegistered {});
        }
        let allow_revoting = self.proposals[i].allow_revoting;
        let found = self.ballots.by_proposal[i].find(voter);
        let ghost old_entries = self.ballots.by_proposal@[i as int].entries@;
        let ghost old_votes = self.proposals@[i as int].votes;
        proof {
            assert(tally_matches(old_votes, self.ballots.by_proposal@[i as int]));
        }
        match found {
            Some(j) => {
                let b = self.ballots.by_proposal[i].entries[j].1;
                if allow_revoting {
                    if b.vote == vote {
                        return Err(ContractError::AlreadyCast {});
                    }
                    proof {
                        lemma_ballot_total_entry(old_entries, j as int, b.vote);
                    }
                    self.proposals[i].votes.remove_vote(b.vote, b.power);
                } else {
                    return Err(ContractError::AlreadyVoted {});
                }
            },
            None => {},
        }
        let ghost mid_votes = self.proposals@[i as int].votes;
        proof {
            assert(self.ballots.by_proposal@ == old(self).ballots.by_proposal@);
            let ob = old(self).ballot(id, voter@);
            match found {
                Some(j) => {
                    assert(ob == Some(old_entries[j as int].1));
                },
                None => {
                    assert(ob is None);
                },
            }
            assert(mid_votes == tally_without_ballot(old_votes, ob));
        }
        let old_status = self.proposals[i].status;
        self.ballots.update((id, voter.clone()), Ballot { power, vote });
        self.proposals[i].votes.add_vote(vote, power);
        proof {
            assert(old(self).proposals@[i as int].wf());
            assert(self.proposals@[i as int].votes == mid_votes.spec_added(vote, power as int));
            assert(self.proposals@[i as int].votes.spec_total() == mid_votes.spec_total() + power);
        }
        self.proposals[i].update_status(block);
        proof {
            let new_entries = self.ballots.by_proposal@[i as int].entries@;
            let e = (*voter, Ballot { power, vote });
            match found {
                Some(j) => {
                    let k = choose|k: int|
                        0 <= k < old_entries.len() && old_entries[k].0@ == voter@ && lookup(
                            old_entries,
                            voter@,
                        ) == Some(old_entries[k].1) && new_entries == old_entries.update(k, e);
                    lemma_ballot_total_update(old_entries, k, e, Vote::Yes);
                    lemma_ballot_total_update(old_entries, k, e, Vote::No);
                    lemma_ballot_total_update(old_entries, k, e, Vote::Abstain);
                },
                None => {
                    lemma_ballot_total_push(old_entries, e, Vote::Yes);
                    lemma_ballot_total_push(old_entries, e, Vote::No);
                    lemma_ballot_total_push(old_entries, e, Vote::Abstain);
                },
            }
            assert forall|x: int| 0 <= x < self.proposals@.len() implies #[trigger] self.proposals@[
                x
            ].wf() && tally_matches(self.proposals@[x].votes, self.ballots.by_proposal@[x]) by {
                if x != i {
                    assert(self.proposals@[x] == old(self).proposals@[x]);
                    assert(self.ballots.by_proposal@[x] == old(self).ballots.by_proposal@[x]);
                }
            }
        }
        let new_status = self.proposals[i].status;
        let mut hooks = proposal_status_changed_hooks(&self.proposal_hooks, id, old_status, new_status);
        let mut vote_notices = new_vote_hooks(&self.vote_hooks, id, voter, vote);
        let ghost first = hooks@;
        let ghost second = vote_notices@;
        hooks.append(&mut vote_notices);
        proof {
            assert(notices(hooks@) =~= notices(first) + notices(second));
        }
        Ok((new_status, hooks))
    }
}


/// The error, if any, of executing a proposal; `power` is the sender's
/// current voting power.
pub open spec fn execute_error(s: ModuleState, power: u128, id: u64, block: BlockInfo) -> Option<
    ContractError,
> {
    if s.config.only_members_execute && power == 0 {
        Some(ContractError::Unauthorized {})
    } else if !s.has_proposal(id) {
        Some(ContractError::NoSuchProposal { id })
    } else if s.proposal(id).spec_current_status(block) != Status::Passed {
        Some(ContractError::NotPassed {})
    } else {
        None
    }
}

/// The execution that passed proposal `id` asks of the DAO: none where
/// the proposal holds no messages; otherwise its messages, run by the
/// DAO, with a reply tagged with the proposal's id on failure where the
/// configuration closes proposals whose execution fails.
pub open spec fn execution_of(s: ModuleState, id: u64, e: Option<ExecutionMsg>) -> bool {
    if s.proposal(id).msgs@.len() == 0 {
        e is None
    } else {
        e matches Some(m) && m.dao == s.config.dao && m.msgs@ == s.proposal(id).msgs@
            && m.reply_on_error == if s.config.close_proposal_on_execution_failure {
            Some(TaggedReplyId::FailedProposalExecution(id))
        } else {
            None
        }
    }
}

/// The error, if any, of closing a proposal.
pub open spec fn close_error(s: ModuleState, id: u64, block: BlockInfo) -> Option<ContractError> {
    if !s.has_proposal(id) {
        Some(ContractError::Std(StdError::NotFound {}))
    } else if s.proposal(id).spec_current_status(block) != Status::Rejected {
        Some(ContractError::WrongCloseStatus {})
    } else {
        None
    }
}

/// The proposals with proposal `id` given status `status`, changed at
/// `time`.
pub open spec fn with_status(s: ModuleState, id: u64, status: Status, time: Timestamp) -> Seq<Proposal> {
    s.proposals@.update(id - 1, Proposal { status, last_updated: time, ..s.proposal(id) })
}

/// The other parts of the state are unchanged.
pub open spec fn same_but_proposals(a: ModuleState, b: ModuleState) -> bool {
    &&& a.config == b.config
    &&& a.proposal_count == b.proposal_count
    &&& a.ballots == b.ballots
    &&& a.proposal_hooks == b.proposal_hooks
    &&& a.vote_hooks == b.vote_hooks
}

/// Entry `j` of a listing is proposal `id`, stored at `index`, with
/// its status brought up to date.
pub open spec fn listed_at(
    r: Seq<ProposalResponse>,
    proposals: Seq<Proposal>,
    id: int,
    index: int,
    j: int,
    block: BlockInfo,
) -> bool {
    &&& r[j].id == id
    &&& r[j].proposal.same_as(
        Proposal { status: proposals[index].spec_current_status(block), ..proposals[index] },
    )
}

/// A listing of the proposals with ids `first + 1`, `first + 2`, ...
pub open spec fn listed_ascending(
    r: Seq<ProposalResponse>,
    proposals: Seq<Proposal>,
    first: int,
    block: BlockInfo,
) -> bool {
    forall|j: int|
        0 <= j < r.len() ==> #[trigger] listed_at(r, proposals, first + 1 + j, first + j, j, block)
}

/// A listing of the proposals with ids `top`, `top - 1`, ...
pub open spec fn listed_descending(
    r: Seq<ProposalResponse>,
    proposals: Seq<Proposal>,
    top: int,
    block: BlockInfo,
) -> bool {
    forall|j: int|
        0 <= j < r.len() ==> #[trigger] listed_at(r, proposals, top - j, top - j - 1, j, block)
}

/// What a reply tells the module about a message it sent.
#[derive(Clone, Debug, PartialEq, Eq)]
pub enum TaggedReplyId {
    /// Executing the messages of this proposal failed.
    FailedProposalExecution(u64),
    /// The proposal hook receiver at this index failed.
    FailedProposalHook(u64),
    /// The vote hook receiver at this index failed.
    FailedVoteHook(u64),
    /// A pre-propose module was instantiated at this address.
    PreProposeModuleInstantiation(String),
}

/// Reads the reply to the instantiation of a pre-propose module (its
/// result: data on success, error text on failure) into the reply it
/// stands for.
pub fn pre_propose_instantiation_reply(result: &Result<Option<Vec<u8>>, String>) -> (r: Result<TaggedReplyId, ContractError>)
    ensures
        match reply_address(*result) {
            Ok(a) => r matches Ok(TaggedReplyId::PreProposeModuleInstantiation(s)) && s@ == a,
            Err(e) => r == Err::<TaggedReplyId, ContractError>(ContractError::Reply(e)),
        },
{
    match parse_reply_instantiate_data(result) {
        Ok(addr) => Ok(TaggedReplyId::PreProposeModuleInstantiation(addr)),
        Err(e) => Err(ContractError::Reply(e)),
    }
}

impl TaggedReplyId {
    /// The id under which the reply is asked for.
    pub open spec fn spec_reply_id(&self) -> int {
        match self {
            TaggedReplyId::FailedProposalExecution(n) => masked(*n, FAILED_PROPOSAL_EXECUTION_MASK),
            TaggedReplyId::FailedProposalHook(i) => masked(*i, FAILED_PROPOSAL_HOOK_MASK),
            TaggedReplyId::FailedVoteHook(i) => masked(*i, FAILED_VOTE_HOOK_MASK),
            TaggedReplyId::PreProposeModuleInstantiation(_) => PRE_PROPOSE_MODULE_INSTANTIATION_MASK as int,
        }
    }

    /// The id under which the reply is asked for.
    pub fn reply_id(&self) -> (r: u64)
        ensures
            r == self.spec_reply_id(),
    {
        match self {
            TaggedReplyId::FailedProposalExecution(n) => mask_proposal_execution_proposal_id(*n),
            TaggedReplyId::FailedProposalHook(i) => mask_proposal_hook_index(*i),
            TaggedReplyId::FailedVoteHook(i) => mask_vote_hook_index(*i),
            TaggedReplyId::PreProposeModuleInstantiation(_) => pre_propose_module_instantiation_id(),
        }
    }
}

/// Reads the reply with id `id` and result `result` (data on success,
/// error text on failure) into what it tells the module.
pub fn tagged_reply(id: u64, result: &Result<Option<Vec<u8>>, String>) -> (r: Result<TaggedReplyId, ContractError>)
    ensures
        match spec_tag(id) {
            Err(e) => r == Err::<TaggedReplyId, ContractError>(ContractError::Tag(e)),
            Ok(ReplyTag::FailedProposalExecution(n)) => r == Ok::<TaggedReplyId, ContractError>(
                TaggedReplyId::FailedProposalExecution(n),
            ),
            Ok(ReplyTag::FailedProposalHook(i)) => r == Ok::<TaggedReplyId, ContractError>(
                TaggedReplyId::FailedProposalHook(i),
            ),
            Ok(ReplyTag::FailedVoteHook(i)) => r == Ok::<TaggedReplyId, ContractError>(
                TaggedReplyId::FailedVoteHook(i),
            ),
            Ok(ReplyTag::PreProposeModuleInstantiation) => match reply_address(*result) {
                Ok(a) => r matches Ok(TaggedReplyId::PreProposeModuleInstantiation(s)) && s@ == a,
                Err(e) => r == Err::<TaggedReplyId, ContractError>(ContractError::Reply(e)),
            },
        },
{
    match ReplyTag::new(id) {
        Err(e) => Err(ContractError::Tag(e)),
        Ok(ReplyTag::FailedProposalExecution(n)) => Ok(TaggedReplyId::FailedProposalExecution(n)),
        Ok(ReplyTag::FailedProposalHook(i)) => Ok(TaggedReplyId::FailedProposalHook(i)),
        Ok(ReplyTag::FailedVoteHook(i)) => Ok(TaggedReplyId::FailedVoteHook(i)),
        Ok(ReplyTag::PreProposeModuleInstantiation) => pre_propose_instantiation_reply(result),
    }
}

/// Migrating from a compatible version of the module changes nothing.
pub fn migrate(_msg: &MigrateMsg) -> (r: Result<(), ContractError>)
    ensures
        r is Ok,
{
    Ok(())
}

/// Registers `addr` as a receiver of `hooks`.
pub fn add_hook(hooks: &mut Hooks, addr: String) -> (r: Result<(), ContractError>)
    ensures
        old(hooks).view().contains(addr@) ==> r == Err::<(), ContractError>(
            ContractError::HookError(HookError::HookAlreadyRegistered {}),
        ) && *final(hooks) == *old(hooks),
        !old(hooks).view().contains(addr@) ==> r is Ok && final(hooks).view() == old(hooks).view().push(addr@),
{
    match hooks.add_hook(addr) {
        Err(e) => Err(ContractError::HookError(e)),
        Ok(()) => Ok(()),
    }
}

/// Unregisters `addr` from `hooks`.
pub fn remove_hook(hooks: &mut Hooks, addr: &String) -> (r: Result<(), ContractError>)
    ensures
        !old(hooks).view().contains(addr@) ==> r == Err::<(), ContractError>(
            ContractError::HookError(HookError::HookNotRegistered {}),
        ) && *final(hooks) == *old(hooks),
        old(hooks).view().contains(addr@) ==> r is Ok && exists|i: int|
            0 <= i < old(hooks).view().len() && old(hooks).view()[i] == addr@ && final(hooks).view()
                == old(hooks).view().remove(i),
{
    match hooks.remove_hook(addr) {
        Err(e) => Err(ContractError::HookError(e)),
        Ok(()) => Ok(()),
    }
}

impl ModuleState {
    proof fn lemma_status_change_keeps_inv(&self, old_state: ModuleState, id: u64, status: Status, time: Timestamp)
        requires
            old_state.inv(),
            old_state.has_proposal(id),
            same_but_proposals(*self, old_state),
            self.proposals@ == with_status(old_state, id, status, time),
        ensures
            self.inv(),
    {
        assert forall|x: int| 0 <= x < self.proposals@.len() implies #[trigger] self.proposals@[
            x
        ].wf() && tally_matches(self.proposals@[x].votes, self.ballots.by_proposal@[x]) by {
            assert(old_state.proposals@[x].wf());
            assert(tally_matches(old_state.proposals@[x].votes, old_state.ballots.by_proposal@[x]));
        }
    }

    /// Executes a passed proposal: marks it executed and asks the DAO to
    /// run its messages. `power` is the sender's current voting power,
    /// which matters only when only members may execute. Gives back the
    /// status the proposal had stored before, the execution by the DAO
    /// (none where the proposal holds no messages) and the notices to the
    /// proposal hooks.
    pub fn execute_execute(&mut self, power: u128, id: u64, block: &BlockInfo) -> (r: Result<
        (Status, Option<ExecutionMsg>, Vec<HookSubMsg>),
        ContractError,
    >)
        requires
            old(self).inv(),
        ensures
            final(self).inv(),
            match execute_error(*old(self), power, id, *block) {
                Some(e) => r == Err::<(Status, Option<ExecutionMsg>, Vec<HookSubMsg>), ContractError>(e)
                    && *final(self) == *old(self),
                None => {
                    let old_status = old(self).proposal(id).status;
                    &&& r matches Ok((status, execution, hooks)) && status == old_status
                        && execution_of(*old(self), id, execution) && notices(hooks@)
                        == status_change_notices(
                        old(self).proposal_hooks.view(),
                        id,
                        old_status,
                        Status::Executed,
                    )
                    &&& final(self).proposals@ == with_status(*old(self), id, Status::Executed, block.time)
                    &&& same_but_proposals(*final(self), *old(self))
                },
            },
    {
        if self.config.only_members_execute && power == 0 {
            return Err(ContractError::Unauthorized {});
        }
        if id == 0 || id > self.proposal_count {
            return Err(ContractError::NoSuchProposal { id });
        }
        let n = self.proposals.len();
        let i = (id - 1) as usize;
        assert(i == id - 1);
        let old_status = self.proposals[i].status;
        proof {
            assert(old(self).proposals@[i as int].wf());
        }
        if self.proposals[i].current_status(block) != Status::Passed {
            return Err(ContractError::NotPassed {});
        }
        self.proposals[i].status = Status::Executed;
        self.proposals[i].last_updated = block.time;
        proof {
            assert(self.proposals@ =~= with_status(*old(self), id, Status::Executed, block.time));
            self.lemma_status_change_keeps_inv(*old(self), id, Status::Executed, block.time);
        }
        let execution = if self.proposals[i].msgs.len() == 0 {
            None
        } else {
            let reply_on_error = if self.config.close_proposal_on_execution_failure {
                Some(TaggedReplyId::FailedProposalExecution(id))
            } else {
                None
            };
            Some(
                ExecutionMsg {
                    dao: self.config.dao.clone(),
                    msgs: copy_strings(&self.proposals[i].msgs),
                    reply_on_error,
                },
            )
        };
        let hooks = proposal_status_changed_hooks(&self.proposal_hooks, id, old_status, Status::Executed);
        Ok((old_status, execution, hooks))
    }

    /// Closes a rejected proposal. Gives back the status the proposal had
    /// stored before and the notices to the proposal hooks.
    pub fn execute_close(&mut self, id: u64, block: &BlockInfo) -> (r: Result<(Status, Vec<HookSubMsg>), ContractError>)
        requires
            old(self).inv(),
        ensures
            final(self).inv(),
            match close_error(*old(self), id, *block) {
                Some(e) => r == Err::<(Status, Vec<HookSubMsg>), ContractError>(e) && *final(self) == *old(self),
                None => {
                    &&& r matches Ok((status, hooks)) && status == old(self).proposal(id).status
                        && notices(hooks@) == status_change_notices(
                        old(self).proposal_hooks.view(),
                        id,
                        Status::Rejected,
                        Status::Closed,
                    )
                    &&& final(self).proposals@ == with_status(*old(self), id, Status::Closed, block.time)
                    &&& same_but_proposals(*final(self), *old(self))
                },
            },
    {
        if id == 0 || id > self.proposal_count {
            return Err(ContractError::Std(StdError::NotFound {}));
        }
        let n = self.proposals.len();
        let i = (id - 1) as usize;
        assert(i == id - 1);
        let old_status = self.proposals[i].status;
        proof {
            assert(old(self).proposals@[i as int].wf());
        }
        if self.proposals[i].current_status(block) != Status::Rejected {
            return Err(ContractError::WrongCloseStatus {});
        }
        self.proposals[i].status = Status::Closed;
        self.proposals[i].last_updated = block.time;
        proof {
            assert(self.proposals@ =~= with_status(*old(self), id, Status::Closed, block.time));
            self.lemma_status_change_keeps_inv(*old(self), id, Status::Closed, block.time);
        }
        let hooks = proposal_status_changed_hooks(&self.proposal_hooks, id, Status::Rejected, Status::Closed);
        Ok((old_status, hooks))
    }

    /// Replaces the configuration; only the DAO may. The new settings
    /// apply to proposals created afterwards. `contract` is the module's
    /// own address. Gives back the message that instantiates the new
    /// pre-propose module, if one is asked for; until the reply to it
    /// arrives anyone may propose.
    pub fn execute_update_config(&mut self, sender: &String, contract: String, msg: UpdateConfigMsg) -> (r: Result<
        Option<SubMsg>,
        ContractError,
    >)
        requires
            old(self).inv(),
        ensures
            final(self).inv(),
            sender@ != old(self).config.dao@ ==> r == Err::<Option<SubMsg>, ContractError>(
                ContractError::Unauthorized {},
            ) && *final(self) == *old(self),
            sender@ == old(self).config.dao@ ==> match config_error(
                msg.threshold,
                msg.min_voting_period,
                msg.max_voting_period,
            ) {
                Some(e) => r == Err::<Option<SubMsg>, ContractError>(e) && *final(self) == *old(self),
                None => {
                    let (policy, instantiation) = initial_policy_and_messages(msg.pre_propose_info, contract);
                    &&& r == Ok::<Option<SubMsg>, ContractError>(instantiation)
                    &&& final(self).config == (Config {
                        threshold: msg.threshold,
                        max_voting_period: msg.max_voting_period,
                        min_voting_period: msg.min_voting_period,
                        only_members_execute: msg.only_members_execute,
                        allow_revoting: msg.allow_revoting,
                        dao: msg.dao,
                        close_proposal_on_execution_failure: msg.close_proposal_on_execution_failure,
                        proposal_creation_policy: policy,
                    })
                    &&& final(self).proposals == old(self).proposals
                    &&& final(self).ballots == old(self).ballots
                    &&& final(self).proposal_count == old(self).proposal_count
                    &&& final(self).proposal_hooks == old(self).proposal_hooks
                    &&& final(self).vote_hooks == old(self).vote_hooks
                },
            },
    {
        if *sender != self.config.dao {
            return Err(ContractError::Unauthorized {});
        }
        match validate_config(&msg.threshold, msg.min_voting_period, msg.max_voting_period) {
            Err(e) => {
                return Err(e);
            },
            Ok(()) => {},
        }
        let (policy, instantiation) = msg.pre_propose_info.into_initial_policy_and_messages(contract);
        self.config = Config {
            threshold: msg.threshold,
            max_voting_period: msg.max_voting_period,
            min_voting_period: msg.min_voting_period,
            only_members_execute: msg.only_members_execute,
            allow_revoting: msg.allow_revoting,
            dao: msg.dao,
            close_proposal_on_execution_failure: msg.close_proposal_on_execution_failure,
            proposal_creation_policy: policy,
        };
        Ok(instantiation)
    }

    /// Adds a receiver of proposal hooks; only the DAO may.
    pub fn execute_add_proposal_hook(&mut self, sender: &String, address: String) -> (r: Result<
        (),
        ContractError,
    >)
        requires
            old(self).inv(),
        ensures
            final(self).inv(),
            sender@ != old(self).config.dao@ ==> r == Err::<(), ContractError>(
                ContractError::Unauthorized {},
            ) && *final(self) == *old(self),
            sender@ == old(self).config.dao@ ==> {
                &&& old(self).proposal_hooks.view().contains(address@) ==> r == Err::<
                    (),
                    ContractError,
                >(ContractError::HookError(HookError::HookAlreadyRegistered {}))
                &&& !old(self).proposal_hooks.view().contains(address@) ==> r is Ok
                &&& final(self).proposal_hooks.view() == if r is Ok {
                    old(self).proposal_hooks.view().push(address@)
                } else {
                    old(self).proposal_hooks.view()
                }
                &&& final(self).config == old(self).config
                &&& final(self).proposals == old(self).proposals
                &&& final(self).ballots == old(self).ballots
                &&& final(self).proposal_count == old(self).proposal_count
                &&& final(self).vote_hooks == old(self).vote_hooks
            },
    {
        if self.config.dao != *sender {
            return Err(ContractError::Unauthorized {});
        }
        add_hook(&mut self.proposal_hooks, address)
    }

    /// Removes a receiver of proposal hooks; only the DAO may.
    pub fn execute_remove_proposal_hook(&mut self, sender: &String, address: String) -> (r: Result<
        (),
        ContractError,
    >)
        requires
            old(self).inv(),
        ensures
            final(self).inv(),
            sender@ != old(self).config.dao@ ==> r == Err::<(), ContractError>(
                ContractError::Unauthorized {},
            ) && *final(self) == *old(self),
            sender@ == old(self).config.dao@ ==> {
                &&& !old(self).proposal_hooks.view().contains(address@) ==> r == Err::<
                    (),
                    ContractError,
                >(ContractError::HookError(HookError::HookNotRegistered {}))
                    && final(self).proposal_hooks.view() == old(self).proposal_hooks.view()
                &&& old(self).proposal_hooks.view().contains(address@) ==> r is Ok && exists|
                    i: int,
                |
                    0 <= i < old(self).proposal_hooks.view().len() && old(self).proposal_hooks.view()[i] == address@ && final(self).proposal_hooks.view()
                        == old(self).proposal_hooks.view().remove(i)
                &&& final(self).config == old(self).config
                &&& final(self).proposals == old(self).proposals
                &&& final(self).ballots == old(self).ballots
                &&& final(self).proposal_count == old(self).proposal_count
                &&& final(self).vote_hooks == old(self).vote_hooks
            },
    {
        if self.config.dao != *sender {
            return Err(ContractError::Unauthorized {});
        }
        remove_hook(&mut self.proposal_hooks, &address)
    }

    /// Adds a receiver of vote hooks; only the DAO may.
    pub fn execute_add_vote_hook(&mut self, sender: &String, address: String) -> (r: Result<
        (),
        ContractError,
    >)
        requires
            old(self).inv(),
        ensures
            final(self).inv(),
            sender@ != old(self).config.dao@ ==> r == Err::<(), ContractError>(
                ContractError::Unauthorized {},
            ) && *final(self) == *old(self),
            sender@ == old(self).config.dao@ ==> {
                &&& old(self).vote_hooks.view().contains(address@) ==> r == Err::<
                    (),
                    ContractError,
                >(ContractError::HookError(HookError::HookAlreadyRegistered {}))
                &&& !old(self).vote_hooks.view().contains(address@) ==> r is Ok
                &&& final(self).vote_hooks.view() == if r is Ok {
                    old(self).vote_hooks.view().push(address@)
                } else {
                    old(self).vote_hooks.view()
                }
                &&& final(self).config == old(self).config
                &&& final(self).proposals == old(self).proposals
                &&& final(self).ballots == old(self).ballots
                &&& final(self).proposal_count == old(self).proposal_count
                &&& final(self).proposal_hooks == old(self).proposal_hooks
            },
    {
        if self.config.dao != *sender {
            return Err(ContractError::Unauthorized {});
        }
        add_hook(&mut self.vote_hooks, address)
    }

    /// Removes a receiver of vote hooks; only the DAO may.
    pub fn execute_remove_vote_hook(&mut self, sender: &String, address: String) -> (r: Result<
        (),
        ContractError,
    >)
        requires
            old(self).inv(),
        ensures
            final(self).inv(),
            sender@ != old(self).config.dao@ ==> r == Err::<(), ContractError>(
                ContractError::Unauthorized {},
            ) && *final(self) == *old(self),
            sender@ == old(self).config.dao@ ==> {
                &&& !old(self).vote_hooks.view().contains(address@) ==> r == Err::<
                    (),
                    ContractError,
                >(ContractError::HookError(HookError::HookNotRegistered {}))
                    && final(self).vote_hooks.view() == old(self).vote_hooks.view()
                &&& old(self).vote_hooks.view().contains(address@) ==> r is Ok && exists|i: int|
                    0 <= i < old(self).vote_hooks.view().len() && old(self).vote_hooks.view()[i]
                        == address@ && final(self).vote_hooks.view() == old(self).vote_hooks.view().remove(i)
                &&& final(self).config == old(self).config
                &&& final(self).proposals == old(self).proposals
                &&& final(self).ballots == old(self).ballots
                &&& final(self).proposal_count == old(self).proposal_count
                &&& final(self).proposal_hooks == old(self).proposal_hooks
            },
    {
        if self.config.dao != *sender {
            return Err(ContractError::Unauthorized {});
        }
        remove_hook(&mut self.vote_hooks, &address)
    }
}


/// The error, if any, of handling a reply.
pub open spec fn reply_error(s: ModuleState, id: TaggedReplyId) -> Option<ContractError> {
    match id {
        TaggedReplyId::FailedProposalExecution(pid) => if !s.has_proposal(pid) {
            Some(ContractError::NoSuchProposal { id: pid })
        } else {
            None
        },
        TaggedReplyId::FailedProposalHook(idx) => if idx >= s.proposal_hooks.view().len() {
            Some(ContractError::InvalidHookIndex { idx })
        } else {
            None
        },
        TaggedReplyId::FailedVoteHook(idx) => if idx >= s.vote_hooks.view().len() {
            Some(ContractError::InvalidHookIndex { idx })
        } else {
            None
        },
        TaggedReplyId::PreProposeModuleInstantiation(addr) => if s.proposal_hooks.view().contains(
            addr@,
        ) {
            Some(ContractError::HookError(HookError::HookAlreadyRegistered {}))
        } else {
            None
        },
    }
}

impl ModuleState {
    /// Handles the reply to a message the module sent: a failed
    /// execution marks the proposal so; a failing hook receiver is
    /// dropped, and if it was the pre-propose module anyone may propose
    /// again; a newly instantiated pre-propose module becomes the only
    /// proposer and a receiver of proposal hooks.
    pub fn reply(&mut self, id: TaggedReplyId, block: &BlockInfo) -> (r: Result<(), ContractError>)
        requires
            old(self).inv(),
        ensures
            final(self).inv(),
            match reply_error(*old(self), id) {
                Some(e) => r == Err::<(), ContractError>(e) && *final(self) == *old(self),
                None => r is Ok && match id {
                    TaggedReplyId::FailedProposalExecution(pid) => final(self).proposals@
                        == with_status(*old(self), pid, Status::ExecutionFailed, block.time) && same_but_proposals(
                        *final(self),
                        *old(self),
                    ),
                    TaggedReplyId::FailedProposalHook(idx) => {
                        let addr = old(self).proposal_hooks.view()[idx as int];
                        &&& final(self).proposal_hooks.view() == old(self).proposal_hooks.view().remove(
                            idx as int,
                        )
                        &&& final(self).config == if old(self).config.proposal_creation_policy.is_module(addr) {
                            Config {
                                proposal_creation_policy: ProposalCreationPolicy::Anyone {},
                                ..old(self).config
                            }
                        } else {
                            old(self).config
                        }
                        &&& final(self).proposals == old(self).proposals
                        &&& final(self).ballots == old(self).ballots
                        &&& final(self).vote_hooks == old(self).vote_hooks
                    },
                    TaggedReplyId::FailedVoteHook(idx) => {
                        &&& final(self).vote_hooks.view() == old(self).vote_hooks.view().remove(
                            idx as int,
                        )
                        &&& final(self).config == old(self).config
                        &&& final(self).proposals == old(self).proposals
                        &&& final(self).ballots == old(self).ballots
                        &&& final(self).proposal_hooks == old(self).proposal_hooks
                    },
                    TaggedReplyId::PreProposeModuleInstantiation(addr) => {
                        &&& final(self).config == Config {
                            proposal_creation_policy: ProposalCreationPolicy::Module { addr },
                            ..old(self).config
                        }
                        &&& final(self).proposal_hooks.view() == old(self).proposal_hooks.view().push(addr@)
                        &&& final(self).proposals == old(self).proposals
                        &&& final(self).ballots == old(self).ballots
                        &&& final(self).vote_hooks == old(self).vote_hooks
                    },
                },
            },
    {
        match id {
            TaggedReplyId::FailedProposalExecution(pid) => {
                if pid == 0 || pid > self.proposal_count {
                    return Err(ContractError::NoSuchProposal { id: pid });
                }
                let n = self.proposals.len();
                let i = (pid - 1) as usize;
                assert(i == pid - 1);
                self.proposals[i].status = Status::ExecutionFailed;
                self.proposals[i].last_updated = block.time;
                proof {
                    assert(self.proposals@ =~= with_status(*old(self), pid, Status::ExecutionFailed, block.time));
                    self.lemma_status_change_keeps_inv(*old(self), pid, Status::ExecutionFailed, block.time);
                }
                Ok(())
            },
            TaggedReplyId::FailedProposalHook(idx) => {
                let n = self.proposal_hooks.len();
                if idx >= n as u64 {
                    return Err(ContractError::InvalidHookIndex { idx });
                }
                let addr = self.proposal_hooks.remove_hook_by_index(idx);
                if self.config.proposal_creation_policy.addr_is_my_module(&addr) {
                    self.config.proposal_creation_policy = ProposalCreationPolicy::Anyone {};
                }
                Ok(())
            },
            TaggedReplyId::FailedVoteHook(idx) => {
                let n = self.vote_hooks.len();
                if idx >= n as u64 {
                    return Err(ContractError::InvalidHookIndex { idx });
                }
                let _addr = self.vote_hooks.remove_hook_by_index(idx);
                Ok(())
            },
            TaggedReplyId::PreProposeModuleInstantiation(addr) => {
                let ghost a = addr;
                let hook_addr = addr.clone();
                match add_hook(&mut self.proposal_hooks, hook_addr) {
                    Err(e) => {
                        return Err(e);
                    },
                    Ok(()) => {},
                }
                self.config.proposal_creation_policy = ProposalCreationPolicy::Module { addr };
                Ok(())
            },
        }
    }

    /// The proposal with id `id`, its status brought up to date.
    pub fn query_proposal(&self, id: u64, block: &BlockInfo) -> (r: Result<ProposalResponse, StdError>)
        requires
            self.inv(),
        ensures
            !self.has_proposal(id) ==> r == Err::<ProposalResponse, StdError>(StdError::NotFound {}),
            self.has_proposal(id) ==> (r matches Ok(resp) && resp.id == id && resp.proposal.same_as(
                Proposal { status: self.proposal(id).spec_current_status(*block), ..self.proposal(id) },
            )),
    {
        if id == 0 || id > self.proposal_count {
            return Err(StdError::NotFound {});
        }
        let n = self.proposals.len();
        let i = (id - 1) as usize;
        assert(i == id - 1);
        proof {
            assert(self.proposals@[i as int].wf());
        }
        let p = self.proposals[i].duplicate();
        Ok(p.into_response(block, id))
    }

    /// The number of proposals created so far.
    pub fn query_proposal_count(&self) -> (n: u64)
        ensures
            n == self.proposal_count,
    {
        self.proposal_count
    }

    /// Up to `limit` (by default `DEFAULT_LIMIT`) proposals with ids
    /// above `start_after`, in ascending order of id, each with its
    /// status brought up to date.
    pub fn query_list_proposals(
        &self,
        start_after: Option<u64>,
        limit: Option<u64>,
        block: &BlockInfo,
    ) -> (r: Vec<ProposalResponse>)
        requires
            self.inv(),
        ensures
            ({
                let first: int = match start_after {
                    Some(s) => s as int,
                    None => 0,
                };
                let lim: int = match limit {
                    Some(l) => l as int,
                    None => DEFAULT_LIMIT as int,
                };
                let avail: int = if first < self.proposal_count {
                    self.proposal_count - first
                } else {
                    0
                };
                &&& r@.len() == if lim < avail {
                    lim
                } else {
                    avail
                }
                &&& listed_ascending(r@, self.proposals@, first, *block)
            }),
    {
        let first: u64 = match start_after {
            Some(s) => s,
            None => 0,
        };
        let lim: u64 = match limit {
            Some(l) => l,
            None => DEFAULT_LIMIT,
        };
        let mut r: Vec<ProposalResponse> = Vec::new();
        if first >= self.proposal_count {
            return r;
        }
        let n = self.proposals.len();
        let avail = self.proposal_count - first;
        let take = if lim < avail {
            lim
        } else {
            avail
        };
        let mut k: u64 = 0;
        while k < take
            invariant
                self.inv(),
                n == self.proposal_count,
                first < self.proposal_count,
                avail == self.proposal_count - first,
                take <= avail,
                k <= take,
                r@.len() == k,
                listed_ascending(r@, self.proposals@, first as int, *block),
            decreases take - k,
        {
            let id = first + 1 + k;
            let i = (id - 1) as usize;
            assert(i == id - 1);
            proof {
                assert(self.proposals@[i as int].wf());
            }
            let p = self.proposals[i].duplicate();
            proof {
                lemma_same_status(p, self.proposals@[i as int], *block);
            }
            let ghost before = r@;
            r.push(p.into_response(block, id));
            proof {
                assert(i == first + k);
                assert forall|j: int| 0 <= j < r@.len() implies #[trigger] listed_at(
                    r@,
                    self.proposals@,
                    first + 1 + j,
                    first + j,
                    j,
                    *block,
                ) by {
                    if j < k {
                        assert(r@[j] == before[j]);
                        assert(listed_at(before, self.proposals@, first + 1 + j, first + j, j, *block));
                    }
                }
            }
            k = k + 1;
        }
        r
    }

    /// Up to `limit` (by default `DEFAULT_LIMIT`) proposals with ids
    /// below `start_before` (or all ids), in descending order of id, each
    /// with its status brought up to date.
    pub fn query_reverse_proposals(
        &self,
        start_before: Option<u64>,
        limit: Option<u64>,
        block: &BlockInfo,
    ) -> (r: Vec<ProposalResponse>)
        requires
            self.inv(),
        ensures
            ({
                let top: int = match start_before {
                    Some(s) => if s as int - 1 < self.proposal_count {
                        s as int - 1
                    } else {
                        self.proposal_count as int
                    },
                    None => self.proposal_count as int,
                };
                let lim: int = match limit {
                    Some(l) => l as int,
                    None => DEFAULT_LIMIT as int,
                };
                let avail: int = if top > 0 {
                    top
                } else {
                    0
                };
                &&& r@.len() == if lim < avail {
                    lim
                } else {
                    avail
                }
                &&& listed_descending(r@, self.proposals@, top, *block)
            }),
    {
        let top: u64 = match start_before {
            Some(s) => if s == 0 {
                0
            } else if s - 1 < self.proposal_count {
                s - 1
            } else {
                self.proposal_count
            },
            None => self.proposal_count,
        };
        let lim: u64 = match limit {
            Some(l) => l,
            None => DEFAULT_LIMIT,
        };
        let n = self.proposals.len();
        let mut r: Vec<ProposalResponse> = Vec::new();
        let take = if lim < top {
            lim
        } else {
            top
        };
        let mut k: u64 = 0;
        while k < take
            invariant
                self.inv(),
                n == self.proposal_count,
                top <= self.proposal_count,
                take <= top,
                k <= take,
                r@.len() == k,
                listed_descending(r@, self.proposals@, top as int, *block),
            decreases take - k,
        {
            let id = top - k;
            let i = (id - 1) as usize;
            assert(i == id - 1);
            proof {
                assert(self.proposals@[i as int].wf());
            }
            let p = self.proposals[i].duplicate();
            proof {
                lemma_same_status(p, self.proposals@[i as int], *block);
            }
            let ghost before = r@;
            r.push(p.into_response(block, id));
            proof {
                assert forall|j: int| 0 <= j < r@.len() implies #[trigger] listed_at(
                    r@,
                    self.proposals@,
                    top - j,
                    top - j - 1,
                    j,
                    *block,
                ) by {
                    if j < k {
                        assert(r@[j] == before[j]);
                        assert(listed_at(before, self.proposals@, top - j, top - j - 1, j, *block));
                    } else {
                        assert(i == top - k - 1);
                    }
                }
            }
            k = k + 1;
        }
        proof {
            assert(r@.len() == take);
        }
        r
    }

    /// The vote `voter` cast on proposal `id`, if any.
    pub fn query_vote(&self, id: u64, voter: &String) -> (r: Option<VoteInfo>)
        requires
            self.inv(),
        ensures
            !self.has_proposal(id) ==> r is None,
            self.has_proposal(id) ==> match self.ballot(id, voter@) {
                None => r is None,
                Some(b) => (r matches Some(info) && info.voter@ == voter@ && info.vote == b.vote
                    && info.power == b.power),
            },
    {
        if id == 0 || id > self.proposal_count {
            return None;
        }
        let n = self.ballots.by_proposal.len();
        let i = (id - 1) as usize;
        assert(i == id - 1);
        match self.ballots.by_proposal[i].get(voter) {
            None => None,
            Some(b) => Some(VoteInfo { voter: voter.clone(), vote: b.vote, power: b.power }),
        }
    }

    /// The votes cast on proposal `proposal_id` by voters strictly after
    /// `start_after`, in ascending order of voter address, at most
    /// `limit` of them (by default 30). A proposal that does not exist has
    /// none.
    pub fn query_list_votes(&self, proposal_id: u64, start_after: Option<String>, limit: Option<u64>) -> (r: Vec<VoteInfo>)
        requires
            self.inv(),
        ensures
            !self.has_proposal(proposal_id) ==> r@.len() == 0,
            self.has_proposal(proposal_id) ==> exists|pairs: Seq<(String, Ballot)>|
                #[trigger] self.ballots.by_proposal@[proposal_id - 1].asc_listing(opt_string(start_after), Some(vote_limit(limit)), pairs)
                    && r@ == vote_infos(pairs),
    {
        let lim: u64 = match limit {
            Some(l) => l,
            None => DEFAULT_LIMIT,
        };
        match self.ballots.prefix(proposal_id) {
            None => Vec::new(),
            Some(table) => {
                let count = lim as usize;
                let pairs = match &start_after {
                    Some(s) => table.list_asc(Some(s), Some(count)),
                    None => table.list_asc(None, Some(count)),
                };
                proof {
                    assert(count == vote_limit(limit));
                    assert(self.ballots.by_proposal@[proposal_id - 1].asc_listing(opt_string(start_after), Some(vote_limit(limit)), pairs@));
                }
                to_vote_infos(&pairs)
            },
        }
    }
}

impl ModuleState {
    /// The configuration.
    pub fn query_config(&self) -> (r: Config)
        ensures
            r == self.config,
    {
        Config {
            threshold: self.config.threshold,
            max_voting_period: self.config.max_voting_period,
            min_voting_period: self.config.min_voting_period,
            only_members_execute: self.config.only_members_execute,
            allow_revoting: self.config.allow_revoting,
            dao: self.config.dao.clone(),
            close_proposal_on_execution_failure: self.config.close_proposal_on_execution_failure,
            proposal_creation_policy: match &self.config.proposal_creation_policy {
                ProposalCreationPolicy::Anyone {} => ProposalCreationPolicy::Anyone {},
                ProposalCreationPolicy::Module { addr } => ProposalCreationPolicy::Module { addr: addr.clone() },
            },
        }
    }

    /// The contract version stored on chain, as the info query answers it.
    pub fn query_info(&self, version: ContractVersion) -> (r: InfoResponse)
        ensures
            r.info == version,
    {
        InfoResponse { info: version }
    }
}

/// The number of votes a listing shows at most.
pub open spec fn vote_limit(limit: Option<u64>) -> usize {
    (match limit {
        Some(l) => l,
        None => DEFAULT_LIMIT,
    }) as usize
}

/// The ballots as vote information.
pub open spec fn vote_infos(pairs: Seq<(String, Ballot)>) -> Seq<VoteInfo> {
    Seq::new(pairs.len(), |i: int| VoteInfo { voter: pairs[i].0, vote: pairs[i].1.vote, power: pairs[i].1.power })
}

fn to_vote_infos(pairs: &Vec<(String, Ballot)>) -> (r: Vec<VoteInfo>)
    ensures
        r@ == vote_infos(pairs@),
{
    let mut r: Vec<VoteInfo> = Vec::new();
    let mut i: usize = 0;
    while i < pairs.len()
        invariant
            i <= pairs@.len(),
            r@ == vote_infos(pairs@).subrange(0, i as int),
        decreases pairs.len() - i,
    {
        r.push(VoteInfo { voter: pairs[i].0.clone(), vote: pairs[i].1.vote, power: pairs[i].1.power });
        proof {
            assert(r@ =~= vote_infos(pairs@).subrange(0, i + 1));
        }
        i = i + 1;
    }
    proof {
        assert(vote_infos(pairs@).subrange(0, i as int) =~= vote_infos(pairs@));
    }
    r
}

} // verus!
