//! The messages the early single choice governance module answers.
//!
//! Every handler either returns an error and leaves the state as it
//! was, or applies its whole change. Voting powers are handed in by the
//! caller.
use crate::expiration::{spec_expiration_le, expiration_le, BlockInfo, Duration, Expiration};
use crate::govmod_single::proposal::{advance_proposal_id, Proposal, Status};
use crate::govmod_single::threshold::Threshold;
use crate::proposal_single::messages::ExecutionMsg;
use crate::proposal_single::proposal::copy_strings;
use crate::std_error::StdError;
use crate::table::StrMap;
use crate::voting::{Vote, Votes};
use vstd::prelude::*;

verus! {

/// Why the governance module refuses a message.
#[derive(Clone, Copy, Debug, PartialEq, Eq, Structural)]
pub enum ContractError {
    Std(StdError),
    Unauthorized {},
    /// The suggested expiration is later than the maximum voting period.
    InvalidExpiration {},
    NoSuchProposal { id: u64 },
    NotOpen { id: u64 },
    /// The voter had no voting power when the proposal was created.
    NotRegistered {},
    AlreadyVoted {},
    NotPassed {},
    NotExpired {},
    /// Only rejected proposals, or open ones that have expired, may be
    /// closed.
    WrongCloseStatus {},
    /// A threshold of zero.
    ZeroThreshold {},
    /// A threshold above 100%.
    UnreachableThreshold {},
}

/// The module's configuration.
#[derive(Clone, Debug)]
pub struct Config {
    pub threshold: Threshold,
    pub max_voting_period: Duration,
    pub only_members_execute: bool,
    pub dao: String,
}

/// A vote cast on a proposal.
#[derive(Clone, Copy, Debug, PartialEq, Eq, Structural)]
pub struct Ballot {
    pub power: u128,
    pub vote: Vote,
}

impl crate::table::Duplicate for Ballot {
    fn duplicate(&self) -> (r: Ballot) {
        *self
    }
}

/// Everything the module stores; the proposal with id `i` is
/// `proposals[i - 1]` and its ballots are `ballots[i - 1]`.
pub struct ModuleState {
    pub config: Config,
    pub proposal_count: u64,
    pub proposals: Vec<Proposal>,
    pub ballots: Vec<StrMap<Ballot>>,
}

impl ModuleState {
    pub open spec fn wf(&self) -> bool {
        &&& self.proposals@.len() == self.proposal_count
        &&& self.ballots@.len() == self.proposal_count
        &&& self.config.threshold.at_most_one()
        &&& forall|i: int| 0 <= i < self.proposals@.len() ==> #[trigger] self.proposals@[i].wf()
    }

    pub open spec fn has_proposal(&self, id: u64) -> bool {
        1 <= id <= self.proposal_count
    }

    pub open spec fn proposal(&self, id: u64) -> Proposal {
        self.proposals@[id - 1]
    }

    pub open spec fn ballot(&self, id: u64, voter: Seq<char>) -> Option<Ballot> {
        self.ballots@[id - 1].get_spec(voter)
    }
}

/// The power of the ballots cast for position `pos`.
pub open spec fn position_total(s: Seq<(String, Ballot)>, pos: Vote) -> int
    decreases s.len(),
{
    if s.len() == 0 {
        0
    } else {
        position_total(s.drop_last(), pos) + if s.last().1.vote == pos {
            s.last().1.power as int
        } else {
            0
        }
    }
}

impl ModuleState {
    /// Each proposal's tally is the power of the ballots cast on it, by
    /// position.
    pub open spec fn tallies_match(&self) -> bool {
        forall|i: int|
            0 <= i < self.proposals@.len() ==> {
                &&& #[trigger] self.proposals@[i].votes.yes == position_total(self.ballots@[i].entries@, Vote::Yes)
                &&& self.proposals@[i].votes.no == position_total(self.ballots@[i].entries@, Vote::No)
                &&& self.proposals@[i].votes.abstain == position_total(self.ballots@[i].entries@, Vote::Abstain)
            }
    }
}

/// Sets up the module for the DAO `sender`.
pub fn instantiate(
    sender: String,
    threshold: Threshold,
    max_voting_period: Duration,
    only_members_execute: bool,
) -> (r: Result<ModuleState, ContractError>)
    ensures
        match threshold.error() {
            Some(e) => r == Err::<ModuleState, ContractError>(e),
            None => (r matches Ok(s) && s.wf() && s.tallies_match() && s.proposal_count == 0 && s.config.threshold
                == threshold && s.config.max_voting_period == max_voting_period
                && s.config.only_members_execute == only_members_execute && s.config.dao == sender),
        },
{
    match threshold.validate() {
        Err(e) => {
            return Err(e);
        },
        Ok(()) => {},
    }
    Ok(
        ModuleState {
            config: Config { threshold, max_voting_period, only_members_execute, dao: sender },
            proposal_count: 0,
            proposals: Vec::new(),
            ballots: Vec::new(),
        },
    )
}

/// The expiration of a new proposal: `latest` if given and not later
/// than the maximum voting period allows, else that maximum.
pub open spec fn spec_expiration(max: Expiration, latest: Option<Expiration>) -> Option<
    Expiration,
> {
    match latest {
        Some(l) => if spec_expiration_le(l, max) {
            Some(l)
        } else {
            None
        },
        None => Some(max),
    }
}

impl ModuleState {
    /// Creates a proposal. `sender_power` is the sender's voting power and
    /// `total_power` the DAO's total voting power at `block`; `latest`
    /// optionally brings the expiration forward. Gives back the new
    /// proposal's id.
    pub fn execute_propose(
        &mut self,
        sender: &String,
        title: String,
        description: String,
        msgs: &Vec<String>,
        latest: Option<Expiration>,
        block: &BlockInfo,
        sender_power: u128,
        total_power: u128,
    ) -> (r: Result<u64, ContractError>)
        requires
            old(self).wf(),
            old(self).config.max_voting_period.fits_after(*block),
            old(self).proposal_count < u64::MAX,
        ensures
            final(self).wf(),
            old(self).tallies_match() ==> final(self).tallies_match(),
            sender_power == 0 ==> r == Err::<u64, ContractError>(ContractError::Unauthorized {})
                && *final(self) == *old(self),
            sender_power != 0 ==> match spec_expiration(
                old(self).config.max_voting_period.spec_after(*block),
                latest,
            ) {
                None => r == Err::<u64, ContractError>(ContractError::InvalidExpiration {})
                    && *final(self) == *old(self),
                Some(e) => {
                let p = final(self).proposals@.last();
                let q = Proposal { status: Status::Open, ..p };
                &&& r == Ok::<u64, ContractError>((old(self).proposal_count + 1) as u64)
                &&& final(self).proposal_count == old(self).proposal_count + 1
                &&& final(self).proposals@.subrange(0, old(self).proposals@.len() as int)
                    == old(self).proposals@
                &&& p.expiration == e
                &&& p.proposer == *sender
                &&& p.title == title
                &&& p.description == description
                &&& p.msgs@ == msgs@
                &&& p.start_height == block.height
                &&& p.threshold == old(self).config.threshold
                &&& p.total_power == total_power
                &&& p.votes == (Votes { yes: 0, no: 0, abstain: 0 })
                &&& p.status == q.spec_current_status(*block)
                &&& forall|k: Seq<char>| #[trigger]
                    final(self).ballots@.last().get_spec(k) is None
                },
            },
    {
        if sender_power == 0 {
            return Err(ContractError::Unauthorized {});
        }
        let max_voting_expiration = self.config.max_voting_period.after(block);
        let expiration = match latest {
            Some(l) => {
                if expiration_le(&l, &max_voting_expiration) {
                    l
                } else {
                    return Err(ContractError::InvalidExpiration {});
                }
            },
            None => max_voting_expiration,
        };
        let mut proposal = Proposal {
            title,
            description,
            proposer: sender.clone(),
            start_height: block.height,
            expiration,
            threshold: self.config.threshold,
            total_power,
            msgs: copy_strings(msgs),
            status: Status::Open,
            votes: Votes::zero(),
        };
        proposal.update_status(block);
        let id = advance_proposal_id(&mut self.proposal_count);
        let ghost old_props = self.proposals@;
        self.proposals.push(proposal);
        let empty: StrMap<Ballot> = StrMap::new();
        self.ballots.push(empty);
        proof {
            assert(self.proposals@.subrange(0, old_props.len() as int) =~= old_props);
            assert forall|i: int| 0 <= i < self.proposals@.len() implies #[trigger] self.proposals@[
                i
            ].wf() by {
                if i < old_props.len() {
                    assert(self.proposals@[i] == old_props[i]);
                }
            }
        }
        Ok(id)
    }

    proof fn lemma_proposal_change_keeps_wf(&self, old_state: ModuleState, i: int)
        requires
            old_state.wf(),
            0 <= i < old_state.proposals@.len(),
            self.proposals@.len() == old_state.proposals@.len(),
            self.proposals@[i].wf(),
            forall|j: int|
                0 <= j < self.proposals@.len() && j != i ==> self.proposals@[j]
                    == old_state.proposals@[j],
            self.ballots@.len() == old_state.ballots@.len(),
            self.proposal_count == old_state.proposal_count,
            self.config == old_state.config,
        ensures
            self.wf(),
    {
        assert forall|j: int| 0 <= j < self.proposals@.len() implies #[trigger] self.proposals@[
            j
        ].wf() by {
            if j != i {
                assert(old_state.proposals@[j].wf());
            }
        }
    }

    /// Executes a passed proposal: marks it executed and asks the DAO to
    /// run its messages (nothing is asked where it holds none).
    /// `sender_power` matters only when only members may execute.
    pub fn execute_execute(&mut self, sender_power: u128, id: u64, block: &BlockInfo) -> (r: Result<
        Option<ExecutionMsg>,
        ContractError,
    >)
        requires
            old(self).wf(),
        ensures
            final(self).wf(),
            old(self).tallies_match() ==> final(self).tallies_match(),
            ({
                let err = if old(self).config.only_members_execute && sender_power == 0 {
                    Some(ContractError::Unauthorized {})
                } else if !old(self).has_proposal(id) {
                    Some(ContractError::NoSuchProposal { id })
                } else if !old(self).proposal(id).spec_is_passed(*block) {
                    Some(ContractError::NotPassed {})
                } else {
                    None
                };
                match err {
                    Some(e) => r == Err::<Option<ExecutionMsg>, ContractError>(e) && *final(self) == *old(self),
                    None => r matches Ok(execution) && (if old(self).proposal(id).msgs@.len() == 0 {
                        execution is None
                    } else {
                        execution matches Some(m) && m.dao == old(self).config.dao && m.msgs@ == old(
                            self,
                        ).proposal(id).msgs@ && m.reply_on_error is None
                    }) && final(self).proposals@ == old(self).proposals@.update(
                        id - 1,
                        Proposal { status: Status::Executed, ..old(self).proposal(id) },
                    ) && final(self).ballots == old(self).ballots && final(self).proposal_count
                        == old(self).proposal_count,
                }
            }),
    {
        if self.config.only_members_execute && sender_power == 0 {
            return Err(ContractError::Unauthorized {});
        }
        if id == 0 || id > self.proposal_count {
            return Err(ContractError::NoSuchProposal { id });
        }
        let n = self.proposals.len();
        let i = (id - 1) as usize;
        assert(i == id - 1);
        proof {
            assert(old(self).proposals@[i as int].wf());
        }
        if !self.proposals[i].is_passed(block) {
            return Err(ContractError::NotPassed {});
        }
        self.proposals[i].status = Status::Executed;
        proof {
            assert(self.proposals@ =~= old(self).proposals@.update(
                id - 1,
                Proposal { status: Status::Executed, ..old(self).proposal(id) },
            ));
            self.lemma_proposal_change_keeps_wf(*old(self), i as int);
        }
        if self.proposals[i].msgs.len() == 0 {
            Ok(None)
        } else {
            Ok(
                Some(
                    ExecutionMsg {
                        dao: self.config.dao.clone(),
                        msgs: copy_strings(&self.proposals[i].msgs),
                        reply_on_error: None,
                    },
                ),
            )
        }
    }

    /// Records `voter`'s vote on proposal `id` with `power`, the voter's
    /// voting power when the proposal was created. Gives back the
    /// proposal's status after the vote. A vote that is counted must
    /// keep the tally within 128 bits and the abstentions within the
    /// proposal's total power.
    pub fn execute_vote(
        &mut self,
        voter: &String,
        id: u64,
        vote: Vote,
        power: u128,
        block: &BlockInfo,
    ) -> (r: Result<Status, ContractError>)
        requires
            old(self).wf(),
            old(self).has_proposal(id) && old(self).proposal(id).spec_current_status(*block) == Status::Open
                && power != 0 && old(self).ballot(id, voter@) is None ==> {
                let p = old(self).proposal(id);
                &&& p.votes.spec_total() + power <= u128::MAX
                &&& p.votes.spec_added(vote, power as int).abstain <= p.total_power
            },
        ensures
            final(self).wf(),
            old(self).tallies_match() ==> final(self).tallies_match(),
            ({
                let err = if !old(self).has_proposal(id) {
                    Some(ContractError::NoSuchProposal { id })
                } else if old(self).proposal(id).spec_current_status(*block) != Status::Open {
                    Some(ContractError::NotOpen { id })
                } else if power == 0 {
                    Some(ContractError::NotRegistered {})
                } else if old(self).ballot(id, voter@) is Some {
                    Some(ContractError::AlreadyVoted {})
                } else {
                    None
                };
                match err {
                    Some(e) => r == Err::<Status, ContractError>(e) && *final(self) == *old(self),
                    None => {
                        let p = old(self).proposal(id);
                        let tallied = Proposal { votes: p.votes.spec_added(vote, power as int), ..p };
                        &&& final(self).proposal(id).votes == tallied.votes
                        &&& final(self).proposal(id).status == tallied.spec_current_status(*block)
                        &&& r == Ok::<Status, ContractError>(final(self).proposal(id).status)
                        &&& forall|k: Seq<char>| #[trigger]
                            final(self).ballot(id, k) == if k == voter@ {
                                Some(Ballot { power, vote })
                            } else {
                                old(self).ballot(id, k)
                            }
                        &&& final(self).proposal_count == old(self).proposal_count
                    },
                }
            }),
    {
        if id == 0 || id > self.proposal_count {
            return Err(ContractError::NoSuchProposal { id });
        }
        let n = self.proposals.len();
        let i = (id - 1) as usize;
        assert(i == id - 1);
        proof {
            assert(old(self).proposals@[i as int].wf());
        }
        if self.proposals[i].current_status(block) != Status::Open {
            return Err(ContractError::NotOpen { id });
        }
        if power == 0 {
            return Err(ContractError::NotRegistered {});
        }
        if self.ballots[i].contains(voter) {
            return Err(ContractError::AlreadyVoted {});
        }
        let ghost old_entries = self.ballots@[i as int].entries@;
        self.ballots[i].insert(voter.clone(), Ballot { power, vote });
        proof {
            assert(self.ballots@[i as int].entries@ == old_entries.push((*voter, Ballot { power, vote })));
            assert(old_entries.push((*voter, Ballot { power, vote })).drop_last() =~= old_entries);
        }
        self.proposals[i].votes.add_vote(vote, power);
        let ghost tallied = self.proposals@[i as int];
        self.proposals[i].update_status(block);
        proof {
            assert(tallied.wf());
            assert forall|j: int| 0 <= j < self.proposals@.len() && j != i implies self.proposals@[j]
                == old(self).proposals@[j] by {}
            self.lemma_proposal_change_keeps_wf(*old(self), i as int);
            if old(self).tallies_match() {
                assert forall|x: int| 0 <= x < self.proposals@.len() implies {
                    &&& #[trigger] self.proposals@[x].votes.yes == position_total(self.ballots@[x].entries@, Vote::Yes)
                    &&& self.proposals@[x].votes.no == position_total(self.ballots@[x].entries@, Vote::No)
                    &&& self.proposals@[x].votes.abstain == position_total(self.ballots@[x].entries@, Vote::Abstain)
                } by {
                    assert(old(self).proposals@[x].votes.yes == position_total(old(self).ballots@[x].entries@, Vote::Yes));
                    assert(old(self).proposals@[x].votes.no == position_total(old(self).ballots@[x].entries@, Vote::No));
                    assert(old(self).proposals@[x].votes.abstain == position_total(old(self).ballots@[x].entries@, Vote::Abstain));
                    if x != i {
                        assert(self.proposals@[x] == old(self).proposals@[x]);
                        assert(self.ballots@[x] == old(self).ballots@[x]);
                    } else {
                        assert(old(self).proposals@[x].votes.yes == position_total(old_entries, Vote::Yes));
                        assert(old(self).proposals@[x].votes.no == position_total(old_entries, Vote::No));
                        assert(old(self).proposals@[x].votes.abstain == position_total(old_entries, Vote::Abstain));
                        assert(self.proposals@[x].votes == tallied.votes);
                        assert(tallied.votes == old(self).proposals@[x].votes.spec_added(vote, power as int));
                        assert(self.ballots@[x].entries@ == old_entries.push((*voter, Ballot { power, vote })));
                    }
                }
            }
        }
        Ok(self.proposals[i].status)
    }

    /// Closes a proposal that was rejected, or is open and has expired.
    pub fn execute_close(&mut self, id: u64, block: &BlockInfo) -> (r: Result<(), ContractError>)
        requires
            old(self).wf(),
        ensures
            final(self).wf(),
            old(self).tallies_match() ==> final(self).tallies_match(),
            ({
                let err = if !old(self).has_proposal(id) {
                    Some(ContractError::Std(StdError::NotFound {}))
                } else {
                    match old(self).proposal(id).status {
                        Status::Rejected => None,
                        Status::Open => if old(self).proposal(id).expiration.expired_at(*block) {
                            None
                        } else {
                            Some(ContractError::NotExpired {})
                        },
                        _ => Some(ContractError::WrongCloseStatus {}),
                    }
                };
                match err {
                    Some(e) => r == Err::<(), ContractError>(e) && *final(self) == *old(self),
                    None => r is Ok && final(self).proposals@ == old(self).proposals@.update(
                        id - 1,
                        Proposal { status: Status::Closed, ..old(self).proposal(id) },
                    ) && final(self).ballots == old(self).ballots,
                }
            }),
    {
        if id == 0 || id > self.proposal_count {
            return Err(ContractError::Std(StdError::NotFound {}));
        }
        let n = self.proposals.len();
        let i = (id - 1) as usize;
        assert(i == id - 1);
        proof {
            assert(old(self).proposals@[i as int].wf());
        }
        match self.proposals[i].status {
            Status::Rejected => {},
            Status::Open => {
                if !self.proposals[i].expiration.is_expired(block) {
                    return Err(ContractError::NotExpired {});
                }
            },
            _ => {
                return Err(ContractError::WrongCloseStatus {});
            },
        }
        self.proposals[i].status = Status::Closed;
        proof {
            assert(self.proposals@ =~= old(self).proposals@.update(
                id - 1,
                Proposal { status: Status::Closed, ..old(self).proposal(id) },
            ));
            self.lemma_proposal_change_keeps_wf(*old(self), i as int);
        }
        Ok(())
    }

    /// Replaces the configuration; only the DAO may, and the threshold
    /// must be valid.
    pub fn execute_update_config(
        &mut self,
        sender: &String,
        threshold: Threshold,
        max_voting_period: Duration,
        only_members_execute: bool,
        dao: String,
    ) -> (r: Result<(), ContractError>)
        requires
            old(self).wf(),
        ensures
            final(self).wf(),
            old(self).tallies_match() ==> final(self).tallies_match(),
            threshold.error() matches Some(e) ==> r == Err::<(), ContractError>(e) && *final(self)
                == *old(self),
            threshold.error() is None && sender@ != old(self).config.dao@ ==> r == Err::<
                (),
                ContractError,
            >(ContractError::Unauthorized {}) && *final(self) == *old(self),
            threshold.error() is None && sender@ == old(self).config.dao@ ==> r is Ok && final(self).config == (Config { threshold, max_voting_period, only_members_execute, dao })
                && final(self).proposals == old(self).proposals && final(self).ballots == old(self).ballots && final(self).proposal_count == old(self).proposal_count,
    {
        match threshold.validate() {
            Err(e) => {
                return Err(e);
            },
            Ok(()) => {},
        }
        if *sender != self.config.dao {
            return Err(ContractError::Unauthorized {});
        }
        self.config = Config { threshold, max_voting_period, only_members_execute, dao };
        Ok(())
    }
}

impl ModuleState {
    /// The configuration.
    pub fn query_config(&self) -> (r: Config)
        ensures
            r == self.config,
    {
        Config {
            threshold: self.config.threshold,
            max_voting_period: self.config.max_voting_period,
            only_members_execute: self.config.only_members_execute,
            dao: self.config.dao.clone(),
        }
    }

    /// The stored proposal `id`; fails where there is none.
    pub fn query_proposal(&self, id: u64) -> (r: Result<Proposal, StdError>)
        requires
            self.wf(),
        ensures
            !self.has_proposal(id) ==> r == Err::<Proposal, StdError>(StdError::NotFound {}),
            self.has_proposal(id) ==> (r matches Ok(p) && p.same_as(self.proposals@[id - 1])),
    {
        let n = self.proposals.len();
        if id == 0 || id > self.proposal_count {
            return Err(StdError::NotFound {});
        }
        let i = (id - 1) as usize;
        assert(i == id - 1);
        Ok(self.proposals[i].duplicate())
    }
}

} // verus!
