//! A multiple choice proposal and the rules that decide which option
//! has won and when the proposal has passed or been rejected.
use crate::deposit::CheckedDepositInfo;
use crate::expiration::{BlockInfo, Expiration};
use crate::proposal_multiple::state::{CheckedMultipleChoiceOption, MultipleChoiceOptionType};
use crate::proposal_multiple::voting_strategy::VotingStrategy;
use crate::proposal_multiple::weights::{
    count_eq, find_max, find_max_below, first_index_of, lemma_count_one, lemma_max_below,
    lemma_seq_max, max_below, seq_max,
};
use crate::proposal_single::proposal::{
    copy_deposit_info, does_vote_count_pass, spec_does_vote_count_pass,
};
use crate::status::Status;
use crate::std_error::StdError;
use crate::voting::{lemma_sum_bound, sum, MultipleChoiceVotes};
use vstd::prelude::*;

verus! {

/// A proposal with several options of which voters choose one.
#[derive(Clone, Debug)]
pub struct MultipleChoiceProposal {
    pub title: String,
    pub description: String,
    pub proposer: String,
    pub start_height: u64,
    /// The proposal may not pass before this has expired (if set).
    pub min_voting_period: Option<Expiration>,
    pub expiration: Expiration,
    /// The options; the last one is "none of the above".
    pub choices: Vec<CheckedMultipleChoiceOption>,
    pub status: Status,
    pub voting_strategy: VotingStrategy,
    /// The total voting power when the proposal was created.
    pub total_power: u128,
    /// The power behind each option, by option index.
    pub votes: MultipleChoiceVotes,
    pub deposit_info: Option<CheckedDepositInfo>,
}

/// The outcome of counting the votes.
pub enum VoteResult {
    /// One option has more votes than every other.
    SingleWinner(CheckedMultipleChoiceOption),
    /// Two or more options share the highest number of votes.
    Tie,
}

/// Reply to a query for one proposal.
#[derive(Clone, Debug)]
pub struct ProposalResponse {
    pub id: u64,
    pub proposal: MultipleChoiceProposal,
}

/// Two distinct weights together are at most the sum.
pub proof fn lemma_sum_two(s: Seq<u128>, i: int, j: int)
    requires
        0 <= i < s.len(),
        0 <= j < s.len(),
        i != j,
    ensures
        s[i] + s[j] <= sum(s),
    decreases s.len(),
{
    let d = s.drop_last();
    if i == s.len() - 1 {
        assert(d[j] == s[j]);
        lemma_sum_bound(d, j);
    } else if j == s.len() - 1 {
        assert(d[i] == s[i]);
        lemma_sum_bound(d, i);
    } else {
        assert(d[i] == s[i]);
        assert(d[j] == s[j]);
        lemma_sum_two(d, i, j);
    }
}

impl MultipleChoiceProposal {
    /// Who created the proposal.
    pub fn proposer(&self) -> (r: String)
        ensures
            r == self.proposer,
    {
        self.proposer.clone()
    }

    /// The deposit made with the proposal, if any.
    pub fn deposit_info(&self) -> (r: Option<CheckedDepositInfo>)
        ensures
            r == self.deposit_info,
    {
        copy_deposit_info(&self.deposit_info)
    }

    /// The stored status.
    pub fn status(&self) -> (r: Status)
        ensures
            r == self.status,
    {
        self.status
    }
}

impl MultipleChoiceProposal {
    pub open spec fn weights(&self) -> Seq<u128> {
        self.votes.vote_weights@
    }

    /// There are at least two options, each knows its own position,
    /// there is a weight for each, and the votes never exceed the power
    /// that could vote.
    pub open spec fn wf(&self) -> bool {
        &&& self.choices@.len() == self.weights().len()
        &&& self.weights().len() >= 2
        &&& forall|i: int| 0 <= i < self.choices@.len() ==> #[trigger] self.choices@[i].index == i
        &&& sum(self.weights()) <= self.total_power
    }

    /// The position of the single option with the most votes, or `None`
    /// for a tie.
    pub open spec fn spec_winner(&self) -> Option<int> {
        let s = self.weights();
        let m = seq_max(s);
        if count_eq(s, m) > 1 {
            None
        } else {
            Some(first_index_of(s, m))
        }
    }

    /// Whether option `i` can no longer be overtaken by the option in
    /// second place, even if all power that has not voted goes to it. A
    /// "none of the above" option that can at most be tied also counts
    /// as unbeatable, since a tie fails the proposal as well.
    pub open spec fn spec_unbeatable(&self, i: int) -> bool {
        let s = self.weights();
        let w = s[i];
        match max_below(s, w as int) {
            None => false,
            Some(second) => {
                let remaining = self.total_power - sum(s);
                if self.choices@[i].option_type == MultipleChoiceOptionType::Standard {
                    w > second + remaining
                } else {
                    w >= second + remaining
                }
            },
        }
    }

    pub open spec fn quorum_met(&self) -> bool {
        spec_does_vote_count_pass(
            sum(self.weights()),
            self.total_power as int,
            self.voting_strategy.spec_quorum(),
        )
    }

    pub open spec fn spec_is_passed(&self, block: BlockInfo) -> bool {
        if self.min_voting_period matches Some(min) && !min.expired_at(block) {
            false
        } else if self.quorum_met() {
            match self.spec_winner() {
                None => false,
                Some(i) => if self.choices@[i].option_type
                    != MultipleChoiceOptionType::NoneOfTheAbove {
                    if self.expiration.expired_at(block) {
                        true
                    } else {
                        self.spec_unbeatable(i)
                    }
                } else {
                    false
                },
            }
        } else {
            false
        }
    }

    pub open spec fn spec_is_rejected(&self, block: BlockInfo) -> bool {
        let expired = self.expiration.expired_at(block);
        match self.spec_winner() {
            None => expired || self.total_power == sum(self.weights()),
            Some(i) => {
                let is_none = self.choices@[i].option_type
                    == MultipleChoiceOptionType::NoneOfTheAbove;
                if self.quorum_met() && expired {
                    is_none
                } else if !expired {
                    is_none && self.spec_unbeatable(i)
                } else {
                    true
                }
            },
        }
    }

    pub open spec fn spec_current_status(&self, block: BlockInfo) -> Status {
        if self.status == Status::Open && self.spec_is_passed(block) {
            Status::Passed
        } else if self.status == Status::Open && (self.expiration.expired_at(block)
            || self.spec_is_rejected(block)) {
            Status::Rejected
        } else {
            self.status
        }
    }

    /// Under a unique winner every other option has fewer votes.
    proof fn lemma_winner(&self)
        requires
            self.wf(),
        ensures
            self.spec_winner() matches Some(i) ==> 0 <= i < self.weights().len() && self.weights()[i]
                == seq_max(self.weights()) && forall|j: int|
                0 <= j < self.weights().len() && j != i ==> self.weights()[j] < self.weights()[i],
            self.spec_winner() matches Some(i) ==> max_below(
                self.weights(),
                self.weights()[i] as int,
            ) is Some,
    {
        let s = self.weights();
        lemma_seq_max(s);
        let m = seq_max(s);
        let k = first_index_of(s, m);
        lemma_count_one(s, m, k);
        if self.spec_winner() is Some {
            lemma_max_below(s, s[k] as int);
            let other = if k == 0 {
                1int
            } else {
                0int
            };
            assert(s[other] < s[k]);
        }
    }

    /// Counts the votes: the single option with the most votes, or a tie.
    pub fn calculate_vote_result(&self) -> (r: Result<VoteResult, StdError>)
        requires
            self.wf(),
        ensures
            match self.spec_winner() {
                None => r matches Ok(VoteResult::Tie),
                Some(i) => (r matches Ok(VoteResult::SingleWinner(c)) && c.same_as(
                    self.choices@[i],
                )),
            },
    {
        let (_max, idx, count) = find_max(&self.votes.vote_weights);
        proof {
            lemma_seq_max(self.weights());
        }
        if count > 1 {
            return Ok(VoteResult::Tie);
        }
        Ok(VoteResult::SingleWinner(self.choices[idx].duplicate()))
    }

    /// Whether the winning option can no longer be overtaken.
    fn is_choice_unbeatable(&self, winning_choice: &CheckedMultipleChoiceOption) -> (r: Result<
        bool,
        StdError,
    >)
        requires
            self.wf(),
            winning_choice.index < self.weights().len(),
            winning_choice.option_type == self.choices@[winning_choice.index as int].option_type,
        ensures
            match max_below(self.weights(), self.weights()[winning_choice.index as int] as int) {
                None => r == Err::<bool, StdError>(StdError::NotFound {}),
                Some(_) => r == Ok::<bool, StdError>(
                    self.spec_unbeatable(winning_choice.index as int),
                ),
            },
    {
        let i = winning_choice.index as usize;
        let w = self.votes.vote_weights[i];
        let ghost s = self.weights();
        match find_max_below(&self.votes.vote_weights, w) {
            None => Err(StdError::NotFound {}),
            Some(second) => {
                proof {
                    lemma_max_below(s, w as int);
                    let j = choose|j: int| 0 <= j < s.len() && s[j] == second;
                    lemma_sum_two(s, i as int, j);
                }
                let total = self.votes.total();
                let remaining = self.total_power - total;
                match winning_choice.option_type {
                    MultipleChoiceOptionType::Standard => Ok(w > second + remaining),
                    MultipleChoiceOptionType::NoneOfTheAbove => Ok(w >= second + remaining),
                }
            },
        }
    }

    /// Whether the proposal has passed: the minimum voting period (if
    /// any) is over, quorum is met, and a single option other than "none
    /// of the above" leads and either the proposal has expired or that
    /// option can no longer be overtaken.
    pub fn is_passed(&self, block: &BlockInfo) -> (r: Result<bool, StdError>)
        requires
            self.wf(),
        ensures
            r == Ok::<bool, StdError>(self.spec_is_passed(*block)),
    {
        match self.min_voting_period {
            Some(min) => {
                if !min.is_expired(block) {
                    return Ok(false);
                }
            },
            None => {},
        }
        let total = self.votes.total();
        if does_vote_count_pass(total, self.total_power, self.voting_strategy.get_quorum()) {
            proof {
                self.lemma_winner();
            }
            match self.calculate_vote_result() {
                Err(e) => {
                    return Err(e);
                },
                Ok(VoteResult::Tie) => {
                    return Ok(false);
                },
                Ok(VoteResult::SingleWinner(winning_choice)) => {
                    if winning_choice.option_type != MultipleChoiceOptionType::NoneOfTheAbove {
                        if self.expiration.is_expired(block) {
                            return Ok(true);
                        } else {
                            return self.is_choice_unbeatable(&winning_choice);
                        }
                    }
                },
            }
        }
        Ok(false)
    }

    /// Whether the proposal has been rejected: a tie once the proposal has
    /// expired or all power has voted; "none of the above" winning at
    /// expiry with quorum, or unbeatably before; or quorum not met at
    /// expiry.
    pub fn is_rejected(&self, block: &BlockInfo) -> (r: Result<bool, StdError>)
        requires
            self.wf(),
        ensures
            r == Ok::<bool, StdError>(self.spec_is_rejected(*block)),
    {
        proof {
            self.lemma_winner();
        }
        match self.calculate_vote_result() {
            Err(e) => Err(e),
            Ok(VoteResult::Tie) => {
                let rejected = self.expiration.is_expired(block) || self.total_power
                    == self.votes.total();
                Ok(rejected)
            },
            Ok(VoteResult::SingleWinner(winning_choice)) => {
                let quorum = does_vote_count_pass(
                    self.votes.total(),
                    self.total_power,
                    self.voting_strategy.get_quorum(),
                );
                let expired = self.expiration.is_expired(block);
                if quorum && expired {
                    Ok(winning_choice.option_type == MultipleChoiceOptionType::NoneOfTheAbove)
                } else if !expired {
                    if winning_choice.option_type == MultipleChoiceOptionType::NoneOfTheAbove {
                        self.is_choice_unbeatable(&winning_choice)
                    } else {
                        Ok(false)
                    }
                } else {
                    Ok(true)
                }
            },
        }
    }

    /// The status the proposal has at `block`.
    pub fn current_status(&self, block: &BlockInfo) -> (r: Result<Status, StdError>)
        requires
            self.wf(),
        ensures
            r == Ok::<Status, StdError>(self.spec_current_status(*block)),
    {
        if self.status == Status::Open {
            match self.is_passed(block) {
                Err(e) => {
                    return Err(e);
                },
                Ok(true) => {
                    return Ok(Status::Passed);
                },
                Ok(false) => {},
            }
            if self.expiration.is_expired(block) {
                return Ok(Status::Rejected);
            }
            match self.is_rejected(block) {
                Err(e) => {
                    return Err(e);
                },
                Ok(true) => {
                    return Ok(Status::Rejected);
                },
                Ok(false) => {},
            }
        }
        Ok(self.status)
    }

    /// Sets the proposal's status to its current status.
    pub fn update_status(&mut self, block: &BlockInfo) -> (r: Result<(), StdError>)
        requires
            old(self).wf(),
        ensures
            r is Ok,
            final(self).status == old(self).spec_current_status(*block),
            final(self).choices == old(self).choices,
            final(self).votes == old(self).votes,
            final(self).total_power == old(self).total_power,
            final(self).voting_strategy == old(self).voting_strategy,
            final(self).expiration == old(self).expiration,
            final(self).min_voting_period == old(self).min_voting_period,
            final(self).title == old(self).title,
            final(self).description == old(self).description,
            final(self).proposer == old(self).proposer,
            final(self).start_height == old(self).start_height,
            final(self).deposit_info == old(self).deposit_info,
    {
        match self.current_status(block) {
            Err(e) => Err(e),
            Ok(s) => {
                self.status = s;
                Ok(())
            },
        }
    }

    /// The proposal with its status brought up to date, as answered to a
    /// query.
    pub fn into_response(self, block: &BlockInfo, id: u64) -> (r: Result<ProposalResponse, StdError>)
        requires
            self.wf(),
        ensures
            r matches Ok(resp) && resp.id == id && resp.proposal.status == self.spec_current_status(
                *block,
            ) && resp.proposal.choices == self.choices && resp.proposal.votes == self.votes
                && resp.proposal.total_power == self.total_power,
    {
        let mut p = self;
        match p.update_status(block) {
            Err(e) => Err(e),
            Ok(()) => Ok(ProposalResponse { id, proposal: p }),
        }
    }
}

/// Bringing a multiple choice proposal's status up to date a second
/// time at the same block changes nothing.
pub proof fn law_multiple_update_status_idempotent(p: MultipleChoiceProposal, block: BlockInfo)
    ensures
        (MultipleChoiceProposal { status: p.spec_current_status(block), ..p }).spec_current_status(
            block,
        ) == p.spec_current_status(block),
{
}

/// A multiple choice proposal only passes once the quorum is met and a
/// single standard option leads: a tie, or "none of the above" in the
/// lead, never passes.
pub proof fn law_passing_needs_quorum_and_standard_winner(p: MultipleChoiceProposal, block: BlockInfo)
    ensures
        p.spec_is_passed(block) ==> p.quorum_met() && (p.spec_winner() matches Some(i)
            && p.choices@[i].option_type != MultipleChoiceOptionType::NoneOfTheAbove),
{
}

/// An option with more votes than every other is the single winner.
proof fn lemma_strict_leader_wins(p: MultipleChoiceProposal, n: int)
    requires
        p.wf(),
        0 <= n < p.weights().len(),
        forall|j: int| 0 <= j < p.weights().len() && j != n ==> p.weights()[j] < p.weights()[n],
    ensures
        p.spec_winner() == Some(n),
{
    let s = p.weights();
    lemma_seq_max(s);
    let m = seq_max(s);
    let k = first_index_of(s, m);
    assert(k == n) by {
        if k != n {
            assert(s[k] < s[n]);
            assert(s[n] <= m);
        }
    }
    lemma_count_one(s, m, n);
}

/// Before it expires, a multiple choice proposal passes only for a
/// standard option that keeps a strict lead over every other option
/// however the power that has not voted yet is cast: even if all of it
/// went to any single other option, that option would still have fewer
/// votes, so no tie and no overtaking is possible.
pub proof fn law_multiple_early_pass_needs_unbeatable_lead(p: MultipleChoiceProposal, block: BlockInfo)
    requires
        p.wf(),
        !p.expiration.expired_at(block),
        p.spec_is_passed(block),
    ensures
        exists|w: int|
            0 <= w < p.weights().len() && p.choices@[w].option_type == MultipleChoiceOptionType::Standard
                && forall|j: int|
                0 <= j < p.weights().len() && j != w ==> p.weights()[j] + (p.total_power - sum(
                    p.weights(),
                )) < p.weights()[w],
{
    p.lemma_winner();
    let s = p.weights();
    let w = p.spec_winner()->0;
    lemma_max_below(s, s[w] as int);
    let second = max_below(s, s[w] as int)->0;
    assert(p.choices@[w].option_type == MultipleChoiceOptionType::Standard);
    assert forall|j: int| 0 <= j < s.len() && j != w implies s[j] + (p.total_power - sum(s)) < s[w] by {
        assert(s[j] < s[w]);
        assert(s[j] <= second);
    }
}

/// Before it expires, a multiple choice proposal whose minimum voting
/// period is over and whose quorum is met passes as soon as a standard
/// option leads every other option by more than the power that has not
/// voted yet.
pub proof fn law_multiple_unbeatable_lead_passes_early(p: MultipleChoiceProposal, block: BlockInfo, w: int)
    requires
        p.wf(),
        !p.expiration.expired_at(block),
        p.min_voting_period matches Some(min) ==> min.expired_at(block),
        spec_does_vote_count_pass(
            sum(p.weights()),
            p.total_power as int,
            p.voting_strategy.spec_quorum(),
        ),
        0 <= w < p.weights().len(),
        p.choices@[w].option_type == MultipleChoiceOptionType::Standard,
        forall|j: int|
            0 <= j < p.weights().len() && j != w ==> p.weights()[j] + (p.total_power - sum(p.weights()))
                < p.weights()[w],
    ensures
        p.spec_is_passed(block),
{
    let s = p.weights();
    assert(forall|j: int| 0 <= j < s.len() && j != w ==> s[j] < s[w]);
    lemma_strict_leader_wins(p, w);
    lemma_max_below(s, s[w] as int);
    let other = if w == 0 {
        1int
    } else {
        0int
    };
    assert(s[other] < s[w]);
    let second = max_below(s, s[w] as int)->0;
    let j = choose|j: int| 0 <= j < s.len() && s[j] == second;
    assert(j != w);
}

/// Before it expires, a multiple choice proposal is rejected only when
/// no way of casting the power that has not voted can make a standard
/// option the single winner: either all power has voted (and no
/// standard option leads), or "none of the above" leads every other
/// option by at least the power still outstanding.
pub proof fn law_multiple_early_rejection_needs_settled_outcome(p: MultipleChoiceProposal, block: BlockInfo)
    requires
        p.wf(),
        !p.expiration.expired_at(block),
        p.spec_is_rejected(block),
    ensures
        sum(p.weights()) == p.total_power || exists|n: int|
            0 <= n < p.weights().len() && p.choices@[n].option_type
                == MultipleChoiceOptionType::NoneOfTheAbove && forall|j: int|
                0 <= j < p.weights().len() && j != n ==> p.weights()[j] + (p.total_power - sum(
                    p.weights(),
                )) <= p.weights()[n],
{
    p.lemma_winner();
    let s = p.weights();
    if let Some(n) = p.spec_winner() {
        lemma_max_below(s, s[n] as int);
        let second = max_below(s, s[n] as int)->0;
        assert forall|j: int| 0 <= j < s.len() && j != n implies s[j] + (p.total_power - sum(s)) <= s[n] by {
            assert(s[j] < s[n]);
            assert(s[j] <= second);
        }
    }
}

/// Before it expires, a multiple choice proposal is rejected as soon as
/// "none of the above" leads every other option by at least the power
/// that has not voted yet.
pub proof fn law_multiple_settled_none_rejects_early(p: MultipleChoiceProposal, block: BlockInfo, n: int)
    requires
        p.wf(),
        !p.expiration.expired_at(block),
        0 <= n < p.weights().len(),
        p.choices@[n].option_type == MultipleChoiceOptionType::NoneOfTheAbove,
        forall|j: int|
            0 <= j < p.weights().len() && j != n ==> p.weights()[j] + (p.total_power - sum(p.weights()))
                <= p.weights()[n],
    ensures
        p.spec_is_rejected(block),
{
    let s = p.weights();
    p.lemma_winner();
    if forall|j: int| 0 <= j < s.len() && j != n ==> s[j] < s[n] {
        lemma_strict_leader_wins(p, n);
        lemma_max_below(s, s[n] as int);
        let other = if n == 0 {
            1int
        } else {
            0int
        };
        assert(s[other] < s[n]);
        let second = max_below(s, s[n] as int)->0;
        let j = choose|j: int| 0 <= j < s.len() && s[j] == second;
        assert(j != n);
    } else {
        // Some other option matches its votes, so nothing is outstanding.
        let j = choose|j: int| 0 <= j < s.len() && j != n && !(s[j] < s[n]);
        assert(p.total_power == sum(s));
        if let Some(i) = p.spec_winner() {
            if i != n {
                assert(s[n] < s[i]);
                assert(s[i] + 0 <= s[n]);
            } else {
                assert(s[j] < s[i]);
            }
        }
    }
}

/// A multiple choice proposal passes only once its minimum voting
/// period is over and its quorum is met, and only for a standard option
/// with strictly more votes than every other option.
pub proof fn law_multiple_pass_needs_strict_standard_leader(p: MultipleChoiceProposal, block: BlockInfo)
    requires
        p.wf(),
        p.spec_is_passed(block),
    ensures
        p.min_voting_period matches Some(min) ==> min.expired_at(block),
        spec_does_vote_count_pass(
            sum(p.weights()),
            p.total_power as int,
            p.voting_strategy.spec_quorum(),
        ),
        exists|w: int|
            0 <= w < p.weights().len() && p.choices@[w].option_type == MultipleChoiceOptionType::Standard
                && forall|j: int| 0 <= j < p.weights().len() && j != w ==> p.weights()[j] < p.weights()[w],
{
    p.lemma_winner();
    let w = p.spec_winner()->0;
    assert(p.choices@[w].option_type == MultipleChoiceOptionType::Standard);
}

/// Once it has expired, a multiple choice proposal whose minimum voting
/// period is over and whose quorum is met passes when a standard option
/// has strictly more votes than every other option.
pub proof fn law_multiple_strict_leader_passes_at_expiry(p: MultipleChoiceProposal, block: BlockInfo, w: int)
    requires
        p.wf(),
        p.expiration.expired_at(block),
        p.min_voting_period matches Some(min) ==> min.expired_at(block),
        spec_does_vote_count_pass(
            sum(p.weights()),
            p.total_power as int,
            p.voting_strategy.spec_quorum(),
        ),
        0 <= w < p.weights().len(),
        p.choices@[w].option_type == MultipleChoiceOptionType::Standard,
        forall|j: int| 0 <= j < p.weights().len() && j != w ==> p.weights()[j] < p.weights()[w],
    ensures
        p.spec_is_passed(block),
{
    lemma_strict_leader_wins(p, w);
}

} // verus!
