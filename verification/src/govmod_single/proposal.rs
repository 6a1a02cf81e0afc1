//! A yes/no proposal of the early single choice governance module,
//! whose thresholds are plain percentages.
use crate::expiration::{BlockInfo, Expiration};
use crate::govmod_single::threshold::Threshold;
use crate::threshold::{compare_vote_count, spec_compare_vote_count, Decimal, VoteCmp, DECIMAL_FRACTIONAL, PRECISION_FACTOR};
use crate::proposal_single::proposal::copy_strings;
use crate::voting::{Vote, Votes};
use vstd::prelude::*;

verus! {

/// Where a proposal stands.
#[derive(Clone, Copy, Debug, PartialEq, Eq, Structural)]
pub enum Status {
    /// The proposal is open for voting.
    Open,
    /// The proposal has been rejected.
    Rejected,
    /// The proposal has been passed but has not been executed.
    Passed,
    /// The proposal has been passed and executed.
    Executed,
    /// The proposal has failed or expired and has been closed.
    Closed,
}

impl Status {
    pub open spec fn spec_name(self) -> Seq<char> {
        match self {
            Status::Open => "open"@,
            Status::Rejected => "rejected"@,
            Status::Passed => "passed"@,
            Status::Executed => "executed"@,
            Status::Closed => "closed"@,
        }
    }

    /// The lower-case name of the status, as it appears in responses.
    pub fn as_str(&self) -> (s: &'static str)
        ensures
            s@ == self.spec_name(),
    {
        match self {
            Status::Open => "open",
            Status::Rejected => "rejected",
            Status::Passed => "passed",
            Status::Executed => "executed",
            Status::Closed => "closed",
        }
    }
}

/// Whether `votes` reach `percentage` of `total_power`.
pub open spec fn spec_votes_meet_threshold(votes: int, total_power: int, percentage: Decimal) -> bool {
    spec_compare_vote_count(votes, VoteCmp::Geq, total_power, percentage.atomics as int)
}

/// Whether `votes` reach `percentage` of `total_power`.
pub fn votes_meet_threshold(votes: u128, total_power: u128, percentage: Decimal) -> (b: bool)
    ensures
        b == spec_votes_meet_threshold(votes as int, total_power as int, percentage),
{
    compare_vote_count(votes, VoteCmp::Geq, total_power, percentage)
}

/// A yes/no proposal.
#[derive(Clone, Debug)]
pub struct Proposal {
    pub title: String,
    pub description: String,
    pub proposer: String,
    pub start_height: u64,
    pub expiration: Expiration,
    pub threshold: Threshold,
    pub total_power: u128,
    /// The messages the DAO executes if the proposal passes, each one
    /// serialized.
    pub msgs: Vec<String>,
    pub status: Status,
    pub votes: Votes,
}

/// Whether `no` votes out of `options` leave the yes votes unable to
/// reach `percentage`, even if every option not voted no were yes.
pub open spec fn spec_cannot_reach(no: int, options: int, percentage: Decimal) -> bool {
    !spec_votes_meet_threshold(options - no, options, percentage)
}

impl Proposal {
    /// The abstentions never exceed the power that could vote, the
    /// tally fits in 128 bits, and the percentages are at most 100%.
    pub open spec fn wf(&self) -> bool {
        &&& self.votes.abstain <= self.total_power
        &&& self.votes.spec_total() <= u128::MAX
        &&& self.threshold.at_most_one()
    }

    pub open spec fn spec_is_passed(&self, block: BlockInfo) -> bool {
        match self.threshold {
            Threshold::AbsolutePercentage { percentage } => spec_votes_meet_threshold(
                self.votes.yes as int,
                self.total_power - self.votes.abstain,
                percentage,
            ),
            Threshold::ThresholdQuorum { threshold, quorum } => {
                if !spec_votes_meet_threshold(self.votes.spec_total(), self.total_power as int, quorum) {
                    false
                } else if self.expiration.expired_at(block) {
                    spec_votes_meet_threshold(
                        self.votes.yes as int,
                        self.votes.spec_total() - self.votes.abstain,
                        threshold,
                    )
                } else {
                    spec_votes_meet_threshold(
                        self.votes.yes as int,
                        self.total_power - self.votes.abstain,
                        threshold,
                    )
                }
            },
        }
    }

    pub open spec fn spec_is_rejected(&self, block: BlockInfo) -> bool {
        match self.threshold {
            Threshold::AbsolutePercentage { percentage } => spec_cannot_reach(
                self.votes.no as int,
                self.total_power - self.votes.abstain,
                percentage,
            ),
            Threshold::ThresholdQuorum { threshold, quorum: _ } => {
                if self.expiration.expired_at(block) {
                    spec_cannot_reach(
                        self.votes.no as int,
                        self.votes.spec_total() - self.votes.abstain,
                        threshold,
                    )
                } else {
                    spec_cannot_reach(
                        self.votes.no as int,
                        self.total_power - self.votes.abstain,
                        threshold,
                    )
                }
            },
        }
    }

    pub open spec fn spec_current_status(&self, block: BlockInfo) -> Status {
        if self.status == Status::Open && self.spec_is_passed(block) {
            Status::Passed
        } else if self.status == Status::Open && (self.expiration.expired_at(block)
            || self.spec_is_rejected(block)) {
            Status::Rejected
        } else {
            self.status
        }
    }

    /// Whether enough yes votes have been cast: against all power (less
    /// abstentions) for an absolute percentage; for a threshold with
    /// quorum, once quorum is met, against the votes cast at expiry or
    /// all power before.
    pub fn is_passed(&self, block: &BlockInfo) -> (b: bool)
        requires
            self.wf(),
        ensures
            b == self.spec_is_passed(*block),
    {
        match self.threshold {
            Threshold::AbsolutePercentage { percentage } => votes_meet_threshold(
                self.votes.yes,
                self.total_power - self.votes.abstain,
                percentage,
            ),
            Threshold::ThresholdQuorum { threshold, quorum } => {
                if !votes_meet_threshold(self.votes.total(), self.total_power, quorum) {
                    return false;
                }
                if self.expiration.is_expired(block) {
                    let options = self.votes.total() - self.votes.abstain;
                    votes_meet_threshold(self.votes.yes, options, threshold)
                } else {
                    let options = self.total_power - self.votes.abstain;
                    votes_meet_threshold(self.votes.yes, options, threshold)
                }
            },
        }
    }

    /// Whether `no` votes out of `options` leave the yes votes unable to
    /// reach `percentage`.
    fn cannot_reach(no: u128, options: u128, percentage: Decimal) -> (b: bool)
        ensures
            b == spec_cannot_reach(no as int, options as int, percentage),
    {
        if no > options {
            proof {
                let y = options - no;
                let t = (options * PRECISION_FACTOR * percentage.atomics) / (DECIMAL_FRACTIONAL as int);
                assert(options * PRECISION_FACTOR * percentage.atomics >= 0) by (nonlinear_arith)
                    requires
                        options >= 0,
                        percentage.atomics >= 0,
                ;
                assert(t >= 0);
                assert(y * PRECISION_FACTOR < 0) by (nonlinear_arith)
                    requires
                        y < 0,
                ;
            }
            true
        } else {
            !votes_meet_threshold(options - no, options, percentage)
        }
    }

    /// Whether enough no votes have been cast that the yes votes can no
    /// longer reach the threshold.
    pub fn is_rejected(&self, block: &BlockInfo) -> (b: bool)
        requires
            self.wf(),
        ensures
            b == self.spec_is_rejected(*block),
    {
        match self.threshold {
            Threshold::AbsolutePercentage { percentage } => {
                let options = self.total_power - self.votes.abstain;
                Self::cannot_reach(self.votes.no, options, percentage)
            },
            Threshold::ThresholdQuorum { threshold, quorum: _ } => {
                let options = if self.expiration.is_expired(block) {
                    self.votes.total() - self.votes.abstain
                } else {
                    self.total_power - self.votes.abstain
                };
                Self::cannot_reach(self.votes.no, options, threshold)
            },
        }
    }

    /// The status the proposal has at `block`.
    pub fn current_status(&self, block: &BlockInfo) -> (s: Status)
        requires
            self.wf(),
        ensures
            s == self.spec_current_status(*block),
    {
        if self.status == Status::Open && self.is_passed(block) {
            Status::Passed
        } else if self.status == Status::Open && (self.expiration.is_expired(block)
            || self.is_rejected(block)) {
            Status::Rejected
        } else {
            self.status
        }
    }

    /// Sets the proposal's status to its current status.
    pub fn update_status(&mut self, block: &BlockInfo)
        requires
            old(self).wf(),
        ensures
            final(self).status == old(self).spec_current_status(*block),
            final(self).votes == old(self).votes,
            final(self).total_power == old(self).total_power,
            final(self).threshold == old(self).threshold,
            final(self).expiration == old(self).expiration,
            final(self).msgs == old(self).msgs,
            final(self).title == old(self).title,
            final(self).description == old(self).description,
            final(self).proposer == old(self).proposer,
            final(self).start_height == old(self).start_height,
    {
        self.status = self.current_status(block);
    }
}

/// A proposal with its id, as queries answer it.
#[derive(Clone, Debug)]
pub struct ProposalResponse {
    pub id: u64,
    pub proposal: Proposal,
}

/// A vote that was cast.
#[derive(Clone, Debug, PartialEq, Eq)]
pub struct VoteInfo {
    pub voter: String,
    pub vote: Vote,
    pub power: u128,
}

/// A vote, if one was cast.
#[derive(Clone, Debug, PartialEq, Eq)]
pub struct VoteResponse {
    pub vote: Option<VoteInfo>,
}

/// The votes cast on a proposal.
#[derive(Clone, Debug, PartialEq, Eq)]
pub struct VoteListResponse {
    pub votes: Vec<VoteInfo>,
}

impl Proposal {
    /// The two proposals hold the same fields (the messages compared by
    /// their contents).
    pub open spec fn same_as(&self, other: Proposal) -> bool {
        &&& self.title == other.title
        &&& self.description == other.description
        &&& self.proposer == other.proposer
        &&& self.start_height == other.start_height
        &&& self.expiration == other.expiration
        &&& self.threshold == other.threshold
        &&& self.total_power == other.total_power
        &&& self.msgs@ == other.msgs@
        &&& self.status == other.status
        &&& self.votes == other.votes
    }

    /// A copy of the proposal.
    pub fn duplicate(&self) -> (r: Proposal)
        ensures
            r.same_as(*self),
    {
        Proposal {
            title: self.title.clone(),
            description: self.description.clone(),
            proposer: self.proposer.clone(),
            start_height: self.start_height,
            expiration: self.expiration,
            threshold: self.threshold,
            total_power: self.total_power,
            msgs: copy_strings(&self.msgs),
            status: self.status,
            votes: self.votes,
        }
    }

    /// The proposal with its status brought up to date at `block`, as
    /// queries answer it.
    pub fn into_response(self, block: &BlockInfo, id: u64) -> (r: ProposalResponse)
        requires
            self.wf(),
        ensures
            r.id == id,
            r.proposal == (Proposal { status: self.spec_current_status(*block), ..self }),
    {
        let mut p = self;
        p.update_status(block);
        ProposalResponse { id, proposal: p }
    }
}

/// Takes the next proposal id: the count of proposals made so far, plus
/// one, which becomes the new count.
pub fn advance_proposal_id(count: &mut u64) -> (id: u64)
    requires
        *old(count) < u64::MAX,
    ensures
        id == *old(count) + 1,
        *final(count) == id,
{
    let id = *count + 1;
    *count = id;
    id
}

/// More yes votes never stop a count from reaching a percentage.
pub proof fn law_meeting_threshold_monotone(yes: int, more_yes: int, options: int, percentage: Decimal)
    requires
        yes <= more_yes,
        spec_votes_meet_threshold(yes, options, percentage),
    ensures
        spec_votes_meet_threshold(more_yes, options, percentage),
{
    assert(yes * PRECISION_FACTOR <= more_yes * PRECISION_FACTOR) by (nonlinear_arith)
        requires
            yes <= more_yes,
    ;
}

/// No proposal is at once passed and rejected, as long as no more votes
/// were cast than the power that could vote.
pub proof fn law_never_passed_and_rejected(p: Proposal, block: BlockInfo)
    requires
        p.votes.spec_total() <= p.total_power,
    ensures
        !(p.spec_is_passed(block) && p.spec_is_rejected(block)),
{
    if p.spec_is_passed(block) {
        match p.threshold {
            Threshold::AbsolutePercentage { percentage } => {
                let options = p.total_power - p.votes.abstain;
                law_meeting_threshold_monotone(p.votes.yes as int, options - p.votes.no, options, percentage);
            },
            Threshold::ThresholdQuorum { threshold, quorum: _ } => {
                let options = if p.expiration.expired_at(block) {
                    p.votes.spec_total() - p.votes.abstain
                } else {
                    p.total_power - p.votes.abstain
                };
                law_meeting_threshold_monotone(p.votes.yes as int, options - p.votes.no, options, threshold);
            },
        }
    }
}

} // verus!
