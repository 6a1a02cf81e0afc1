//! A yes/no proposal and the rules that decide when it has passed or
//! been rejected.
use crate::deposit::CheckedDepositInfo;
use crate::expiration::{BlockInfo, Expiration, Timestamp};
use crate::status::Status;
use crate::threshold::{
    compare_vote_count, lemma_compare_vote_count, spec_compare_vote_count, PercentageThreshold, Threshold, VoteCmp,
    DECIMAL_FRACTIONAL, PRECISION_FACTOR,
};
use crate::voting::Votes;
use vstd::prelude::*;

verus! {

/// Whether `yes_votes` out of `options` meet `percent`. A proposal
/// where every vote abstained (no options) never passes.
pub open spec fn spec_does_vote_count_pass(
    yes_votes: int,
    options: int,
    percent: PercentageThreshold,
) -> bool {
    if options == 0 {
        false
    } else {
        match percent {
            PercentageThreshold::Majority {} => yes_votes * 2 > options,
            PercentageThreshold::Percent(p) => spec_compare_vote_count(
                yes_votes,
                VoteCmp::Geq,
                options,
                p.atomics as int,
            ),
        }
    }
}

/// Whether `no_votes` out of `options` make it impossible for the yes
/// votes to meet `percent`: even if every option not voted no were a
/// yes vote, the count would not pass. So a count never both passes
/// and fails. A proposal where every vote abstained (no options) always
/// fails.
pub open spec fn spec_does_vote_count_fail(
    no_votes: int,
    options: int,
    percent: PercentageThreshold,
) -> bool {
    !spec_does_vote_count_pass(options - no_votes, options, percent)
}

/// A percentage is at most 100%.
pub open spec fn percent_at_most_one(percent: PercentageThreshold) -> bool {
    match percent {
        PercentageThreshold::Majority {} => true,
        PercentageThreshold::Percent(p) => p.atomics <= DECIMAL_FRACTIONAL,
    }
}

/// Whether `yes_votes` out of `options` meet `percent`.
pub fn does_vote_count_pass(yes_votes: u128, options: u128, percent: PercentageThreshold) -> (b:
    bool)
    ensures
        b == spec_does_vote_count_pass(yes_votes as int, options as int, percent),
{
    if options == 0 {
        return false;
    }
    match percent {
        PercentageThreshold::Majority {} => yes_votes > options / 2,
        PercentageThreshold::Percent(p) => compare_vote_count(
            yes_votes,
            VoteCmp::Geq,
            options,
            p,
        ),
    }
}

/// Whether `no_votes` out of `options` make passing at `percent`
/// impossible.
pub fn does_vote_count_fail(no_votes: u128, options: u128, percent: PercentageThreshold) -> (b:
    bool)
    ensures
        b == spec_does_vote_count_fail(no_votes as int, options as int, percent),
{
    if options == 0 {
        return true;
    }
    if no_votes > options {
        proof {
            lemma_negative_count_fails(options as int - no_votes as int, options as int, percent);
        }
        return true;
    }
    !does_vote_count_pass(options - no_votes, options, percent)
}

/// A negative count of yes votes never passes.
proof fn lemma_negative_count_fails(yes: int, options: int, percent: PercentageThreshold)
    requires
        yes < 0,
        0 < options,
    ensures
        !spec_does_vote_count_pass(yes, options, percent),
{
    if let PercentageThreshold::Percent(p) = percent {
        let a = p.atomics as int;
        assert(options * PRECISION_FACTOR * a >= 0) by (nonlinear_arith)
            requires
                0 < options,
                0 <= a,
        ;
        assert(yes * PRECISION_FACTOR < 0) by (nonlinear_arith)
            requires
                yes < 0,
        ;
    }
}

/// A yes/no proposal.
#[derive(Clone, Debug, PartialEq, Eq)]
pub struct Proposal {
    pub title: String,
    pub description: String,
    pub proposer: String,
    pub start_height: u64,
    /// The earliest the proposal may pass, if a minimum voting period
    /// was configured.
    pub min_voting_period: Option<Expiration>,
    pub expiration: Expiration,
    pub threshold: Threshold,
    /// The total voting power when the proposal was created.
    pub total_power: u128,
    /// The messages the DAO executes if the proposal passes, each one
    /// serialized.
    pub msgs: Vec<String>,
    pub status: Status,
    pub votes: Votes,
    pub allow_revoting: bool,
    /// When the proposal was created.
    pub created: Timestamp,
    /// When a message last changed the proposal's stored status (its
    /// creation, execution or closing).
    pub last_updated: Timestamp,
    /// Information about the deposit that was sent as part of this
    /// proposal. None if no deposit.
    pub deposit_info: Option<CheckedDepositInfo>,
}

/// Reply to a query for one proposal.
#[derive(Clone, Debug, PartialEq, Eq)]
pub struct ProposalResponse {
    pub id: u64,
    pub proposal: Proposal,
}

/// More yes votes never turn a passing count into a failing one.
pub proof fn law_pass_monotone_in_yes(yes: int, more_yes: int, options: int, percent: PercentageThreshold)
    requires
        yes <= more_yes,
        spec_does_vote_count_pass(yes, options, percent),
    ensures
        spec_does_vote_count_pass(more_yes, options, percent),
{
    if let PercentageThreshold::Percent(p) = percent {
        assert(yes * PRECISION_FACTOR <= more_yes * PRECISION_FACTOR) by (nonlinear_arith)
            requires
                yes <= more_yes,
        ;
    }
}

/// More no votes never make a failed count stop failing.
pub proof fn law_fail_monotone_in_no(no: int, more_no: int, options: int, percent: PercentageThreshold)
    requires
        0 <= no <= more_no,
        spec_does_vote_count_fail(no, options, percent),
    ensures
        spec_does_vote_count_fail(more_no, options, percent),
{
    if spec_does_vote_count_pass(options - more_no, options, percent) {
        law_pass_monotone_in_yes(options - more_no, options - no, options, percent);
    }
}

/// A count of yes votes that passes never leaves, with the no votes
/// cast beside it, a count that fails.
pub proof fn law_pass_excludes_fail(yes: int, no: int, options: int, percent: PercentageThreshold)
    requires
        0 <= yes,
        0 <= no,
        yes + no <= options,
        spec_does_vote_count_pass(yes, options, percent),
    ensures
        !spec_does_vote_count_fail(no, options, percent),
{
    law_pass_monotone_in_yes(yes, options - no, options, percent);
}

/// Takes the next proposal id: the count of proposals made so far, plus
/// one, which becomes the new count.
pub fn advance_proposal_id(count: &mut u64) -> (id: u64)
    requires
        *old(count) < u64::MAX,
    ensures
        id == *old(count) + 1,
        *final(count) == id,
{
    let id = *count + 1;
    *count = id;
    id
}

/// A copy of a list of strings.
pub fn copy_strings(v: &Vec<String>) -> (r: Vec<String>)
    ensures
        r@ == v@,
{
    let mut r: Vec<String> = Vec::new();
    let mut i: usize = 0;
    while i < v.len()
        invariant
            i <= v@.len(),
            r@ == v@.subrange(0, i as int),
        decreases v.len() - i,
    {
        r.push(v[i].clone());
        i = i + 1;
    }
    proof {
        assert(v@.subrange(0, i as int) =~= v@);
    }
    r
}

/// A copy of optional deposit information.
pub fn copy_deposit_info(d: &Option<CheckedDepositInfo>) -> (r: Option<CheckedDepositInfo>)
    ensures
        r == *d,
{
    match d {
        None => None,
        Some(info) => Some(
            CheckedDepositInfo {
                token: info.token.clone(),
                deposit: info.deposit,
                refund_failed_proposals: info.refund_failed_proposals,
            },
        ),
    }
}

impl Proposal {
    /// The two proposals hold the same fields (the messages compared by
    /// their contents).
    pub open spec fn same_as(&self, other: Proposal) -> bool {
        &&& self.title == other.title
        &&& self.description == other.description
        &&& self.proposer == other.proposer
        &&& self.start_height == other.start_height
        &&& self.min_voting_period == other.min_voting_period
        &&& self.expiration == other.expiration
        &&& self.threshold == other.threshold
        &&& self.total_power == other.total_power
        &&& self.msgs@ == other.msgs@
        &&& self.status == other.status
        &&& self.votes == other.votes
        &&& self.allow_revoting == other.allow_revoting
        &&& self.created == other.created
        &&& self.last_updated == other.last_updated
        &&& self.deposit_info == other.deposit_info
    }

    /// A copy of the proposal.
    pub fn duplicate(&self) -> (r: Proposal)
        ensures
            r.same_as(*self),
    {
        Proposal {
            title: self.title.clone(),
            description: self.description.clone(),
            proposer: self.proposer.clone(),
            start_height: self.start_height,
            min_voting_period: self.min_voting_period,
            expiration: self.expiration,
            threshold: self.threshold,
            total_power: self.total_power,
            msgs: copy_strings(&self.msgs),
            status: self.status,
            votes: self.votes,
            allow_revoting: self.allow_revoting,
            created: self.created,
            last_updated: self.last_updated,
            deposit_info: copy_deposit_info(&self.deposit_info),
        }
    }

    /// The tally never exceeds the power that could vote, and the
    /// percentages of the threshold are at most 100%.
    pub open spec fn wf(&self) -> bool {
        &&& self.votes.spec_total() <= self.total_power
        &&& threshold_at_most_one(self.threshold)
    }

    pub open spec fn spec_is_passed(&self, block: BlockInfo) -> bool {
        if self.allow_revoting && !self.expiration.expired_at(block) {
            false
        } else if self.min_voting_period matches Some(min) && !min.expired_at(block) {
            false
        } else {
            match self.threshold {
                Threshold::AbsolutePercentage { percentage } => spec_does_vote_count_pass(
                    self.votes.yes as int,
                    self.total_power - self.votes.abstain,
                    percentage,
                ),
                Threshold::ThresholdQuorum { threshold, quorum } => {
                    if !spec_does_vote_count_pass(
                        self.votes.spec_total(),
                        self.total_power as int,
                        quorum,
                    ) {
                        false
                    } else if self.expiration.expired_at(block) {
                        spec_does_vote_count_pass(
                            self.votes.yes as int,
                            self.votes.spec_total() - self.votes.abstain,
                            threshold,
                        )
                    } else {
                        spec_does_vote_count_pass(
                            self.votes.yes as int,
                            self.total_power - self.votes.abstain,
                            threshold,
                        )
                    }
                },
                Threshold::AbsoluteCount { threshold } => self.votes.yes >= threshold,
            }
        }
    }

    pub open spec fn spec_is_rejected(&self, block: BlockInfo) -> bool {
        if self.allow_revoting && !self.expiration.expired_at(block) {
            false
        } else {
            match self.threshold {
                Threshold::AbsolutePercentage { percentage } => spec_does_vote_count_fail(
                    self.votes.no as int,
                    self.total_power - self.votes.abstain,
                    percentage,
                ),
                Threshold::ThresholdQuorum { threshold, quorum } => {
                    let quorum_met = spec_does_vote_count_pass(
                        self.votes.spec_total(),
                        self.total_power as int,
                        quorum,
                    );
                    let expired = self.expiration.expired_at(block);
                    if quorum_met && expired {
                        spec_does_vote_count_fail(
                            self.votes.no as int,
                            self.votes.spec_total() - self.votes.abstain,
                            threshold,
                        )
                    } else if !expired {
                        spec_does_vote_count_fail(
                            self.votes.no as int,
                            self.total_power - self.votes.abstain,
                            threshold,
                        )
                    } else {
                        true
                    }
                },
                Threshold::AbsoluteCount { threshold } => self.votes.yes + (self.total_power
                    - self.votes.spec_total()) < threshold,
            }
        }
    }

    pub open spec fn spec_current_status(&self, block: BlockInfo) -> Status {
        if self.status == Status::Open && self.spec_is_passed(block) {
            Status::Passed
        } else if self.status == Status::Open && (self.expiration.expired_at(block)
            || self.spec_is_rejected(block)) {
            Status::Rejected
        } else {
            self.status
        }
    }

    /// Whether the proposal is sure to pass: it has passed at expiry,
    /// or no sequence of the votes still to come could make it fail.
    pub fn is_passed(&self, block: &BlockInfo) -> (b: bool)
        requires
            self.wf(),
        ensures
            b == self.spec_is_passed(*block),
    {
        if self.allow_revoting && !self.expiration.is_expired(block) {
            return false;
        }
        // No proposal passes before its minimum voting period is over.
        if let Some(min) = self.min_voting_period {
            if !min.is_expired(block) {
                return false;
            }
        }
        match self.threshold {
            Threshold::AbsolutePercentage { percentage } => {
                let options = self.total_power - self.votes.abstain;
                does_vote_count_pass(self.votes.yes, options, percentage)
            },
            Threshold::ThresholdQuorum { threshold, quorum } => {
                if !does_vote_count_pass(self.votes.total(), self.total_power, quorum) {
                    return false;
                }
                if self.expiration.is_expired(block) {
                    let options = self.votes.total() - self.votes.abstain;
                    does_vote_count_pass(self.votes.yes, options, threshold)
                } else {
                    let options = self.total_power - self.votes.abstain;
                    does_vote_count_pass(self.votes.yes, options, threshold)
                }
            },
            Threshold::AbsoluteCount { threshold } => self.votes.yes >= threshold,
        }
    }

    /// Whether the proposal is sure to be rejected: no sequence of the
    /// votes still to come could make it pass.
    pub fn is_rejected(&self, block: &BlockInfo) -> (b: bool)
        requires
            self.wf(),
        ensures
            b == self.spec_is_rejected(*block),
    {
        if self.allow_revoting && !self.expiration.is_expired(block) {
            return false;
        }
        match self.threshold {
            Threshold::AbsolutePercentage { percentage } => {
                let options = self.total_power - self.votes.abstain;
                does_vote_count_fail(self.votes.no, options, percentage)
            },
            Threshold::ThresholdQuorum { threshold, quorum } => {
                let quorum_met = does_vote_count_pass(self.votes.total(), self.total_power, quorum);
                let expired = self.expiration.is_expired(block);
                if quorum_met && expired {
                    let options = self.votes.total() - self.votes.abstain;
                    does_vote_count_fail(self.votes.no, options, threshold)
                } else if !expired {
                    let options = self.total_power - self.votes.abstain;
                    does_vote_count_fail(self.votes.no, options, threshold)
                } else {
                    true
                }
            },
            Threshold::AbsoluteCount { threshold } => {
                let outstanding_votes = self.total_power - self.votes.total();
                self.votes.yes + outstanding_votes < threshold
            },
        }
    }

    /// The status the proposal has at `block`: an open proposal becomes
    /// passed or rejected as soon as its votes decide it.
    pub fn current_status(&self, block: &BlockInfo) -> (s: Status)
        requires
            self.wf(),
        ensures
            s == self.spec_current_status(*block),
    {
        if self.status == Status::Open && self.is_passed(block) {
            Status::Passed
        } else if self.status == Status::Open && (self.expiration.is_expired(block)
            || self.is_rejected(block)) {
            Status::Rejected
        } else {
            self.status
        }
    }

    /// Sets the proposal's status to its current status.
    pub fn update_status(&mut self, block: &BlockInfo)
        requires
            old(self).wf(),
        ensures
            *final(self) == (Proposal {
                status: old(self).spec_current_status(*block),
                ..*old(self)
            }),
    {
        self.status = self.current_status(block);
    }

    /// The proposal with its status brought up to date, as answered to a
    /// query.
    pub fn into_response(self, block: &BlockInfo, id: u64) -> (r: ProposalResponse)
        requires
            self.wf(),
        ensures
            r.id == id,
            r.proposal == (Proposal { status: self.spec_current_status(*block), ..self }),
    {
        let mut p = self;
        p.update_status(block);
        ProposalResponse { id, proposal: p }
    }
}

/// Both percentages of a threshold are at most 100%.
pub open spec fn threshold_at_most_one(t: Threshold) -> bool {
    match t {
        Threshold::AbsolutePercentage { percentage } => percent_at_most_one(percentage),
        Threshold::ThresholdQuorum { threshold, quorum } => percent_at_most_one(threshold)
            && percent_at_most_one(quorum),
        Threshold::AbsoluteCount { .. } => true,
    }
}

/// Proposals with the same fields have the same current status.
pub proof fn lemma_same_status(a: Proposal, b: Proposal, block: BlockInfo)
    requires
        a.same_as(b),
    ensures
        a.spec_current_status(block) == b.spec_current_status(block),
        (Proposal { status: a.spec_current_status(block), ..a }).same_as(
            Proposal { status: b.spec_current_status(block), ..b },
        ),
{
    assert(a.spec_is_passed(block) == b.spec_is_passed(block));
    assert(a.spec_is_rejected(block) == b.spec_is_rejected(block));
}

/// Bringing a proposal's status up to date a second time at the same
/// block changes nothing.
pub proof fn law_update_status_idempotent(p: Proposal, block: BlockInfo)
    ensures
        (Proposal { status: p.spec_current_status(block), ..p }).spec_current_status(block)
            == p.spec_current_status(block),
{
}

/// A proposal that is no longer open keeps its status.
pub proof fn law_closed_status_is_final(p: Proposal, block: BlockInfo)
    requires
        p.status != Status::Open,
    ensures
        p.spec_current_status(block) == p.status,
{
}

/// While its minimum voting period lasts, an open proposal does not pass,
/// however the votes stand.
pub proof fn law_no_pass_before_min_period(p: Proposal, block: BlockInfo)
    requires
        p.status == Status::Open,
        p.min_voting_period matches Some(min) && !min.expired_at(block),
    ensures
        !p.spec_is_passed(block),
        p.spec_current_status(block) != Status::Passed,
{
}

/// No proposal is at once sure to pass and sure to be rejected, as long
/// as no more votes were cast than the power that could vote.
pub proof fn law_never_passed_and_rejected(p: Proposal, block: BlockInfo)
    requires
        p.votes.spec_total() <= p.total_power,
    ensures
        !(p.spec_is_passed(block) && p.spec_is_rejected(block)),
{
    if p.spec_is_passed(block) && !(p.allow_revoting && !p.expiration.expired_at(block)) {
        match p.threshold {
            Threshold::AbsolutePercentage { percentage } => {
                law_pass_excludes_fail(
                    p.votes.yes as int,
                    p.votes.no as int,
                    p.total_power - p.votes.abstain,
                    percentage,
                );
            },
            Threshold::ThresholdQuorum { threshold, quorum } => {
                if p.expiration.expired_at(block) {
                    law_pass_excludes_fail(
                        p.votes.yes as int,
                        p.votes.no as int,
                        p.votes.spec_total() - p.votes.abstain,
                        threshold,
                    );
                } else {
                    law_pass_excludes_fail(
                        p.votes.yes as int,
                        p.votes.no as int,
                        p.total_power - p.votes.abstain,
                        threshold,
                    );
                }
            },
            Threshold::AbsoluteCount { threshold } => {},
        }
    }
}

/// A yes count that passes out of `o1` options, when every option but
/// `no` is yes, still passes out of more options with the same no votes.
proof fn lemma_pass_monotone_in_options(no: int, o1: int, o2: int, percent: PercentageThreshold)
    requires
        0 <= no,
        0 <= o1 <= o2,
        percent_at_most_one(percent),
        spec_does_vote_count_pass(o1 - no, o1, percent),
    ensures
        spec_does_vote_count_pass(o2 - no, o2, percent),
{
    if o1 - no < 0 {
        if o1 > 0 {
            lemma_negative_count_fails(o1 - no, o1, percent);
        }
    } else if let PercentageThreshold::Percent(d) = percent {
        let p = d.atomics as int;
        lemma_compare_vote_count(o1 - no, o1, p);
        lemma_compare_vote_count(o2 - no, o2, p);
        assert((o2 - o1) * p <= (o2 - o1) * DECIMAL_FRACTIONAL) by (nonlinear_arith)
            requires
                o1 <= o2,
                p <= DECIMAL_FRACTIONAL,
        ;
        assert(o2 * p == o1 * p + (o2 - o1) * p) by (nonlinear_arith);
        assert((o2 - no) * DECIMAL_FRACTIONAL == (o1 - no) * DECIMAL_FRACTIONAL + (o2 - o1)
            * DECIMAL_FRACTIONAL) by (nonlinear_arith);
    }
}

/// `q` is `p` with more votes cast (none taken back), within the power
/// that could vote.
pub open spec fn completes(p: Proposal, q: Proposal) -> bool {
    &&& q == Proposal { votes: q.votes, ..p }
    &&& p.votes.yes <= q.votes.yes
    &&& p.votes.no <= q.votes.no
    &&& p.votes.abstain <= q.votes.abstain
    &&& q.votes.spec_total() <= q.total_power
}

/// A proposal rejected before it expires can not be brought to pass by
/// any way of casting the votes still outstanding, at any block before
/// it expires.
pub proof fn law_rejected_cannot_be_brought_to_pass(
    p: Proposal,
    q: Proposal,
    at: BlockInfo,
    later: BlockInfo,
)
    requires
        p.wf(),
        !p.expiration.expired_at(at),
        !p.expiration.expired_at(later),
        p.spec_is_rejected(at),
        completes(p, q),
    ensures
        !q.spec_is_passed(later),
{
    let t = p.total_power as int;
    let no = p.votes.no as int;
    let o = t - p.votes.abstain;
    let o2 = t - q.votes.abstain;
    match p.threshold {
        Threshold::AbsolutePercentage { percentage } => {
            if q.spec_is_passed(later) {
                law_pass_monotone_in_yes(q.votes.yes as int, o2 - no, o2, percentage);
                lemma_pass_monotone_in_options(no, o2, o, percentage);
            }
        },
        Threshold::ThresholdQuorum { threshold, quorum } => {
            if q.spec_is_passed(later) {
                law_pass_monotone_in_yes(q.votes.yes as int, o2 - no, o2, threshold);
                lemma_pass_monotone_in_options(no, o2, o, threshold);
            }
        },
        Threshold::AbsoluteCount { threshold } => {},
    }
}

} // verus!
