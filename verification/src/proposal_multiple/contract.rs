//! The messages the multiple choice proposal module answers: creating,
//! voting on, executing and closing proposals, and queries.
//!
//! Every handler either returns an error and leaves the state as it
//! was, or applies its whole change. What other contracts answer (the
//! DAO's activity, voting powers) is handed in by the caller.
use crate::deposit::CheckedDepositInfo;
use crate::expiration::{BlockInfo, Duration, Expiration};
use crate::hooks::Hooks;
use crate::proposal_multiple::error::ContractError;
use crate::proposal_multiple::proposal::{MultipleChoiceProposal, ProposalResponse};
use crate::proposal_multiple::state::{
    Ballot, CheckedMultipleChoiceOption, Config, MultipleChoiceOptionType, MultipleChoiceOptions,
    VoteInfo, MAX_NUM_CHOICES,
};
use crate::proposal_multiple::voting_strategy::VotingStrategy;
use crate::proposal_single::proposal::copy_deposit_info;
use crate::status::Status;
use crate::std_error::StdError;
use crate::table::StrMap;
use crate::threshold::{as_result, quorum_error};
use crate::voting::{lemma_sum_update, sum, MultipleChoiceVote, MultipleChoiceVotes};
use vstd::prelude::*;

verus! {

/// Everything the module stores. The proposal with id `i` (counting
/// from 1) is `proposals[i - 1]`, and its ballots, by voter, are
/// `ballots[i - 1]`.
pub struct ModuleState {
    pub config: Config,
    pub proposal_count: u64,
    pub proposals: Vec<MultipleChoiceProposal>,
    pub ballots: Vec<StrMap<Ballot>>,
    pub proposal_hooks: Hooks,
    pub vote_hooks: Hooks,
}

/// The message that sets up a multiple choice proposal module.
pub struct InstantiateMsg {
    pub voting_strategy: VotingStrategy,
    pub min_voting_period: Option<Duration>,
    pub max_voting_period: Duration,
    pub only_members_execute: bool,
    /// The proposal deposit, its token already resolved.
    pub deposit_info: Option<CheckedDepositInfo>,
}

impl ModuleState {
    /// Every proposal id up to the count is stored and every stored
    /// proposal is well formed.
    pub open spec fn wf(&self) -> bool {
        &&& self.proposals@.len() == self.proposal_count
        &&& self.ballots@.len() == self.proposal_count
        &&& forall|i: int| 0 <= i < self.proposals@.len() ==> #[trigger] self.proposals@[i].wf()
    }

    pub open spec fn has_proposal(&self, id: u64) -> bool {
        1 <= id <= self.proposal_count
    }

    pub open spec fn proposal(&self, id: u64) -> MultipleChoiceProposal {
        self.proposals@[id - 1]
    }

    pub open spec fn ballot(&self, id: u64, voter: Seq<char>) -> Option<Ballot> {
        self.ballots@[id - 1].get_spec(voter)
    }
}

/// The power of the ballots cast for option `o`.
pub open spec fn option_total(s: Seq<(String, Ballot)>, o: int) -> int
    decreases s.len(),
{
    if s.len() == 0 {
        0
    } else {
        option_total(s.drop_last(), o) + if s.last().1.vote.option_id == o {
            s.last().1.power as int
        } else {
            0
        }
    }
}

impl ModuleState {
    /// Every option's tally is the power of the ballots cast for it.
    pub open spec fn tallies_match(&self) -> bool {
        forall|i: int, o: int|
            0 <= i < self.proposals@.len() && 0 <= o < self.proposals@[i].weights().len() ==> #[trigger] self.proposals@[i].weights()[o]
                == option_total(self.ballots@[i].entries@, o)
    }
}

/// Sets up a module for the DAO `sender`; the voting strategy's quorum
/// must be at most 100%.
pub fn instantiate(sender: String, msg: InstantiateMsg) -> (r: Result<ModuleState, ContractError>)
    ensures
        match quorum_error(msg.voting_strategy.spec_quorum()) {
            Some(e) => r == Err::<ModuleState, ContractError>(ContractError::ThresholdError(e)),
            None => (r matches Ok(s) && s.wf() && s.tallies_match() && s.proposal_count == 0
                && s.config.voting_strategy == msg.voting_strategy && s.config.min_voting_period
                == msg.min_voting_period && s.config.max_voting_period == msg.max_voting_period
                && s.config.only_members_execute == msg.only_members_execute && s.config.dao
                == sender && s.config.deposit_info == msg.deposit_info),
        },
{
    match msg.voting_strategy.validate() {
        Err(e) => {
            return Err(ContractError::ThresholdError(e));
        },
        Ok(()) => {},
    }
    Ok(
        ModuleState {
            config: Config {
                voting_strategy: msg.voting_strategy,
                min_voting_period: msg.min_voting_period,
                max_voting_period: msg.max_voting_period,
                only_members_execute: msg.only_members_execute,
                dao: sender,
                deposit_info: msg.deposit_info,
            },
            proposal_count: 0,
            proposals: Vec::new(),
            ballots: Vec::new(),
            proposal_hooks: Hooks::new(),
            vote_hooks: Hooks::new(),
        },
    )
}

/// The error, if any, of creating a proposal.
pub open spec fn propose_error(
    sender_power: u128,
    dao_active: bool,
    options: MultipleChoiceOptions,
) -> Option<ContractError> {
    if sender_power == 0 {
        Some(ContractError::MustHaveVotingPower {})
    } else if !dao_active {
        Some(ContractError::InactiveDao {})
    } else if options.options@.len() < 2 || options.options@.len() > MAX_NUM_CHOICES {
        Some(ContractError::WrongNumberOfChoices {})
    } else {
        None
    }
}

/// Whether a duration counted from `block` stays within block heights
/// and times.
pub open spec fn fits(d: Option<Duration>, block: BlockInfo) -> bool {
    match d {
        Some(m) => m.fits_after(block),
        None => true,
    }
}

impl ModuleState {
    /// Creates a proposal with the given options (a "none of the above"
    /// option is added after them). `sender_power` is the proposer's
    /// voting power, `dao_active` whether the DAO's voting module reports
    /// itself active, and `total_power` the DAO's total voting power at
    /// `block`. Gives back the new proposal's id.
    pub fn execute_propose(
        &mut self,
        sender: &String,
        title: String,
        description: String,
        options: MultipleChoiceOptions,
        block: &BlockInfo,
        sender_power: u128,
        dao_active: bool,
        total_power: u128,
    ) -> (r: Result<u64, ContractError>)
        requires
            old(self).wf(),
            old(self).config.max_voting_period.fits_after(*block),
            fits(old(self).config.min_voting_period, *block),
            old(self).proposal_count < u64::MAX,
        ensures
            final(self).wf(),
            old(self).tallies_match() ==> final(self).tallies_match(),
            match propose_error(sender_power, dao_active, options) {
                Some(e) => r == Err::<u64, ContractError>(e) && *final(self) == *old(self),
                None => {
                    let p = final(self).proposals@.last();
                    &&& r == Ok::<u64, ContractError>((old(self).proposal_count + 1) as u64)
                    &&& final(self).proposal_count == old(self).proposal_count + 1
                    &&& final(self).proposals@.subrange(0, old(self).proposals@.len() as int)
                        == old(self).proposals@
                    &&& p.proposer == *sender
                    &&& p.title == title
                    &&& p.description == description
                    &&& p.start_height == block.height
                    &&& p.expiration == old(self).config.max_voting_period.spec_after(*block)
                    &&& p.min_voting_period == match old(self).config.min_voting_period {
                        Some(m) => Some(m.spec_after(*block)),
                        None => None::<Expiration>,
                    }
                    &&& p.choices@.len() == options.options@.len() + 1
                    &&& p.weights() == Seq::new(p.choices@.len(), |i: int| 0u128)
                    &&& p.total_power == total_power
                    &&& p.voting_strategy == old(self).config.voting_strategy
                    &&& p.status == (MultipleChoiceProposal { status: Status::Open, ..p }).spec_current_status(
                        *block,
                    )
                    &&& forall|k: Seq<char>| #[trigger]
                        final(self).ballots@.last().get_spec(k) is None
                    &&& final(self).ballots@.subrange(0, old(self).ballots@.len() as int)
                        == old(self).ballots@
                },
            },
    {
        if sender_power == 0 {
            return Err(ContractError::MustHaveVotingPower {});
        }
        if !dao_active {
            return Err(ContractError::InactiveDao {});
        }
        let expiration = self.config.max_voting_period.after(block);
        let min_voting_period = match self.config.min_voting_period {
            Some(m) => Some(m.after(block)),
            None => None,
        };
        let ghost n_opts = options.options@.len();
        let ghost opts = options;
        let checked = match options.into_checked() {
            Err(e) => {
                return Err(e);
            },
            Ok(c) => c.options,
        };
        let n = checked.len();
        let mut proposal = MultipleChoiceProposal {
            title,
            description,
            proposer: sender.clone(),
            start_height: block.height,
            min_voting_period,
            expiration,
            choices: checked,
            status: Status::Open,
            voting_strategy: self.config.voting_strategy,
            total_power,
            votes: MultipleChoiceVotes::zero(n),
            deposit_info: copy_deposit_info(&self.config.deposit_info),
        };
        proof {
            lemma_sum_zero(proposal.weights());
            assert forall|i: int| 0 <= i < proposal.choices@.len() implies #[trigger] proposal.choices@[
                i
            ].index == i by {
                if i < n_opts {
                    assert(crate::proposal_multiple::state::checked_from(
                        proposal.choices@[i],
                        opts.options@[i],
                        i,
                    ));
                }
            }
        }
        let ghost before = proposal;
        let _ = proposal.update_status(block);
        let id = self.proposal_count + 1;
        let ghost old_props = self.proposals@;
        let ghost old_ballots = self.ballots@;
        self.proposals.push(proposal);
        let empty: StrMap<Ballot> = StrMap::new();
        self.ballots.push(empty);
        self.proposal_count = id;
        proof {
            assert(self.proposals@.subrange(0, old_props.len() as int) =~= old_props);
            assert(self.ballots@.subrange(0, old_ballots.len() as int) =~= old_ballots);
            assert(before == MultipleChoiceProposal { status: Status::Open, ..self.proposals@.last() });
            if old(self).tallies_match() {
                assert forall|x: int, o: int|
                    0 <= x < self.proposals@.len() && 0 <= o < self.proposals@[x].weights().len() implies #[trigger] self.proposals@[x].weights()[o]
                        == option_total(self.ballots@[x].entries@, o) by {
                    if x < old_props.len() {
                        assert(self.proposals@[x] == old_props[x]);
                        assert(self.ballots@[x] == old_ballots[x]);
                    } else {
                        assert(self.ballots@[x].entries@.len() == 0);
                    }
                }
            }
            assert forall|i: int| 0 <= i < self.proposals@.len() implies #[trigger] self.proposals@[
                i
            ].wf() by {
                if i < old_props.len() {
                    assert(self.proposals@[i] == old_props[i]);
                }
            }
        }
        Ok(id)
    }
}

proof fn lemma_sum_zero(s: Seq<u128>)
    requires
        forall|i: int| 0 <= i < s.len() ==> s[i] == 0,
    ensures
        sum(s) == 0,
    decreases s.len(),
{
    if s.len() > 0 {
        let d = s.drop_last();
        assert forall|i: int| 0 <= i < d.len() implies d[i] == 0 by {
            assert(d[i] == s[i]);
        }
        lemma_sum_zero(d);
    }
}

/// The error, if any, of a vote.
pub open spec fn vote_error(
    s: ModuleState,
    voter: Seq<char>,
    id: u64,
    vote: MultipleChoiceVote,
    power: u128,
    block: BlockInfo,
) -> Option<ContractError> {
    if !s.has_proposal(id) {
        Some(ContractError::NoSuchProposal { id })
    } else if vote.option_id >= s.proposal(id).choices@.len() {
        Some(ContractError::InvalidVote {})
    } else if s.proposal(id).spec_current_status(block) != Status::Open {
        Some(ContractError::NotOpen { id })
    } else if power == 0 {
        Some(ContractError::NotRegistered {})
    } else if s.ballot(id, voter) is Some {
        Some(ContractError::AlreadyVoted {})
    } else {
        None
    }
}

impl ModuleState {
    /// Records `voter`'s vote for one option of proposal `id`, with
    /// `power`, the voter's voting power when the proposal was created.
    /// Gives back the proposal's status after the vote.
    pub fn execute_vote(
        &mut self,
        voter: &String,
        id: u64,
        vote: MultipleChoiceVote,
        power: u128,
        block: &BlockInfo,
    ) -> (r: Result<Status, ContractError>)
        requires
            old(self).wf(),
            vote_error(*old(self), voter@, id, vote, power, *block) is None ==> sum(
                old(self).proposal(id).weights(),
            ) + power <= old(self).proposal(id).total_power,
        ensures
            final(self).wf(),
            old(self).tallies_match() ==> final(self).tallies_match(),
            match vote_error(*old(self), voter@, id, vote, power, *block) {
                Some(e) => r == Err::<Status, ContractError>(e) && *final(self) == *old(self),
                None => {
                    let p = old(self).proposal(id);
                    let tallied = MultipleChoiceProposal {
                        votes: MultipleChoiceVotes {
                            vote_weights: final(self).proposal(id).votes.vote_weights,
                        },
                        ..p
                    };
                    &&& final(self).proposal(id).weights() == p.weights().update(
                        vote.option_id as int,
                        (p.weights()[vote.option_id as int] + power) as u128,
                    )
                    &&& final(self).proposal(id).status == tallied.spec_current_status(*block)
                    &&& r == Ok::<Status, ContractError>(final(self).proposal(id).status)
                    &&& final(self).proposal(id).choices == p.choices
                    &&& final(self).proposal(id).total_power == p.total_power
                    &&& final(self).proposals@.len() == old(self).proposals@.len()
                    &&& forall|j: int|
                        0 <= j < old(self).proposals@.len() && j != id - 1
                            ==> #[trigger] final(self).proposals@[j] == old(self).proposals@[j]
                    &&& forall|k: Seq<char>| #[trigger]
                        final(self).ballot(id, k) == if k == voter@ {
                            Some(Ballot { power, vote })
                        } else {
                            old(self).ballot(id, k)
                        }
                    &&& final(self).proposal_count == old(self).proposal_count
                },
            },
    {
        if id == 0 || id > self.proposal_count {
            return Err(ContractError::NoSuchProposal { id });
        }
        let n = self.proposals.len();
        let i = (id - 1) as usize;
        assert(i == id - 1);
        proof {
            assert(old(self).proposals@[i as int].wf());
        }
        if vote.option_id as usize >= self.proposals[i].choices.len() {
            return Err(ContractError::InvalidVote {});
        }
        match self.proposals[i].current_status(block) {
            Err(e) => {
                return Err(ContractError::Std(e));
            },
            Ok(s) => {
                if s != Status::Open {
                    return Err(ContractError::NotOpen { id });
                }
            },
        }
        if power == 0 {
            return Err(ContractError::NotRegistered {});
        }
        if self.ballots[i].contains(voter) {
            return Err(ContractError::AlreadyVoted {});
        }
        let ghost old_p = self.proposals@[i as int];
        let ghost old_entries = self.ballots@[i as int].entries@;
        proof {
            crate::voting::lemma_sum_bound(old_p.weights(), vote.option_id as int);
        }
        self.ballots[i].insert(voter.clone(), Ballot { power, vote });
        proof {
            assert(self.ballots@[i as int].entries@ == old_entries.push((*voter, Ballot { power, vote })));
            assert(old_entries.push((*voter, Ballot { power, vote })).drop_last() =~= old_entries);
        }
        let added = self.proposals[i].votes.add_vote(vote, power);
        proof {
            lemma_sum_update(
                old_p.weights(),
                vote.option_id as int,
                (old_p.weights()[vote.option_id as int] + power) as u128,
            );
            assert(self.proposals@[i as int].wf());
        }
        let ghost tallied = self.proposals@[i as int];
        let _ = self.proposals[i].update_status(block);
        proof {
            assert(tallied == MultipleChoiceProposal {
                votes: MultipleChoiceVotes {
                    vote_weights: self.proposals@[i as int].votes.vote_weights,
                },
                ..old_p
            });
            assert forall|x: int| 0 <= x < self.proposals@.len() implies #[trigger] self.proposals@[
                x
            ].wf() by {
                if x != i {
                    assert(self.proposals@[x] == old(self).proposals@[x]);
                }
            }
            if old(self).tallies_match() {
                assert forall|x: int, o: int|
                    0 <= x < self.proposals@.len() && 0 <= o < self.proposals@[x].weights().len() implies #[trigger] self.proposals@[x].weights()[o]
                        == option_total(self.ballots@[x].entries@, o) by {
                    if x != i {
                        assert(self.proposals@[x] == old(self).proposals@[x]);
                        assert(self.ballots@[x] == old(self).ballots@[x]);
                    } else {
                        assert(old(self).proposals@[x].weights()[o] == option_total(old_entries, o));
                    }
                }
            }
        }
        Ok(self.proposals[i].status)
    }

    /// The proposal with id `id`, its status brought up to date.
    pub fn query_proposal(&self, id: u64, block: &BlockInfo) -> (r: Result<Status, StdError>)
        requires
            self.wf(),
        ensures
            !self.has_proposal(id) ==> r == Err::<Status, StdError>(StdError::NotFound {}),
            self.has_proposal(id) ==> r == Ok::<Status, StdError>(
                self.proposal(id).spec_current_status(*block),
            ),
    {
        if id == 0 || id > self.proposal_count {
            return Err(StdError::NotFound {});
        }
        let n = self.proposals.len();
        let i = (id - 1) as usize;
        assert(i == id - 1);
        proof {
            assert(self.proposals@[i as int].wf());
        }
        self.proposals[i].current_status(block)
    }

    /// The vote `voter` cast on proposal `id`, if any.
    pub fn query_vote(&self, id: u64, voter: &String) -> (r: Option<VoteInfo>)
        requires
            self.wf(),
        ensures
            !self.has_proposal(id) ==> r is None,
            self.has_proposal(id) ==> match self.ballot(id, voter@) {
                None => r is None,
                Some(b) => (r matches Some(info) && info.voter@ == voter@ && info.vote == b.vote
                    && info.power == b.power),
            },
    {
        if id == 0 || id > self.proposal_count {
            return None;
        }
        let n = self.ballots.len();
        let i = (id - 1) as usize;
        assert(i == id - 1);
        match self.ballots[i].get(voter) {
            None => None,
            Some(b) => Some(VoteInfo { voter: voter.clone(), vote: b.vote, power: b.power }),
        }
    }

    /// The number of proposals created so far.
    pub fn query_proposal_count(&self) -> (n: u64)
        ensures
            n == self.proposal_count,
    {
        self.proposal_count
    }
}

} // verus!
