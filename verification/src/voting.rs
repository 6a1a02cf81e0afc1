//! Ballot positions and vote tallies for yes/no/abstain proposals and
//! for multiple choice proposals, and the query interface that a
//! voting power module answers.
use vstd::prelude::*;

verus! {

/// A position on a yes/no proposal.
#[derive(Clone, Copy, Debug, PartialEq, Eq, Structural)]
pub enum Vote {
    Yes,
    No,
    Abstain,
}

impl Vote {
    pub open spec fn spec_name(self) -> Seq<char> {
        match self {
            Vote::Yes => "yes"@,
            Vote::No => "no"@,
            Vote::Abstain => "abstain"@,
        }
    }

    /// The lower-case name of the position, as it appears in responses.
    pub fn as_str(&self) -> (s: &'static str)
        ensures
            s@ == self.spec_name(),
    {
        match self {
            Vote::Yes => "yes",
            Vote::No => "no",
            Vote::Abstain => "abstain",
        }
    }
}

/// The voting power behind each position of a yes/no proposal.
#[derive(Clone, Copy, Debug, PartialEq, Eq, Structural)]
pub struct Votes {
    pub yes: u128,
    pub no: u128,
    pub abstain: u128,
}

impl Votes {
    pub open spec fn spec_total(self) -> int {
        self.yes + self.no + self.abstain
    }

    /// The power counted for `vote`.
    pub open spec fn count(self, vote: Vote) -> int {
        match vote {
            Vote::Yes => self.yes as int,
            Vote::No => self.no as int,
            Vote::Abstain => self.abstain as int,
        }
    }

    /// These votes with `power` more behind `vote` (and no change to the
    /// other positions).
    pub open spec fn spec_added(self, vote: Vote, power: int) -> Votes {
        match vote {
            Vote::Yes => Votes { yes: (self.yes + power) as u128, ..self },
            Vote::No => Votes { no: (self.no + power) as u128, ..self },
            Vote::Abstain => Votes { abstain: (self.abstain + power) as u128, ..self },
        }
    }

    pub fn zero() -> (v: Votes)
        ensures
            v == (Votes { yes: 0, no: 0, abstain: 0 }),
    {
        Votes { yes: 0, no: 0, abstain: 0 }
    }

    /// The power behind all positions.
    pub fn total(&self) -> (t: u128)
        requires
            self.spec_total() <= u128::MAX,
        ensures
            t == self.spec_total(),
    {
        self.yes + self.no + self.abstain
    }

    /// Counts `power` more for `vote`.
    pub fn add_vote(&mut self, vote: Vote, power: u128)
        requires
            old(self).count(vote) + power <= u128::MAX,
        ensures
            *final(self) == old(self).spec_added(vote, power as int),
    {
        match vote {
            Vote::Yes => self.yes = self.yes + power,
            Vote::No => self.no = self.no + power,
            Vote::Abstain => self.abstain = self.abstain + power,
        }
    }

    /// Counts `power` less for `vote`.
    pub fn remove_vote(&mut self, vote: Vote, power: u128)
        requires
            power <= old(self).count(vote),
        ensures
            *final(self) == old(self).spec_added(vote, -power),
    {
        match vote {
            Vote::Yes => self.yes = self.yes - power,
            Vote::No => self.no = self.no - power,
            Vote::Abstain => self.abstain = self.abstain - power,
        }
    }
}

/// Removing a vote that was just added gives back the tally that was
/// there before.
pub proof fn law_remove_undoes_add(votes: Votes, vote: Vote, power: u128)
    requires
        votes.count(vote) + power <= u128::MAX,
    ensures
        votes.spec_added(vote, power as int).spec_added(vote, -power) == votes,
        votes.spec_added(vote, power as int).spec_total() == votes.spec_total() + power,
{
}

/// A position on a multiple choice proposal: the index of the chosen
/// option.
#[derive(Clone, Copy, Debug, PartialEq, Eq, Structural)]
pub struct MultipleChoiceVote {
    pub option_id: u32,
}

/// The sum of a sequence of vote weights.
pub open spec fn sum(s: Seq<u128>) -> int
    decreases s.len(),
{
    if s.len() == 0 {
        0
    } else {
        sum(s.drop_last()) + s.last()
    }
}

proof fn lemma_sum_nonneg(s: Seq<u128>)
    ensures
        sum(s) >= 0,
    decreases s.len(),
{
    if s.len() > 0 {
        lemma_sum_nonneg(s.drop_last());
    }
}

/// Changing one weight changes the sum by the same amount.
pub proof fn lemma_sum_update(s: Seq<u128>, i: int, w: u128)
    requires
        0 <= i < s.len(),
    ensures
        sum(s.update(i, w)) == sum(s) - s[i] + w,
    decreases s.len(),
{
    if i == s.len() - 1 {
        assert(s.update(i, w).drop_last() =~= s.drop_last());
    } else {
        lemma_sum_update(s.drop_last(), i, w);
        assert(s.update(i, w).drop_last() =~= s.drop_last().update(i, w));
    }
}

/// Each weight is at most the sum.
pub proof fn lemma_sum_bound(s: Seq<u128>, i: int)
    requires
        0 <= i < s.len(),
    ensures
        s[i] <= sum(s),
    decreases s.len(),
{
    lemma_sum_nonneg(s.drop_last());
    if i < s.len() - 1 {
        lemma_sum_bound(s.drop_last(), i);
    }
}

/// The voting power behind each option of a multiple choice proposal,
/// by option index.
#[derive(Clone, Debug, PartialEq, Eq)]
pub struct MultipleChoiceVotes {
    pub vote_weights: Vec<u128>,
}

impl MultipleChoiceVotes {
    pub open spec fn spec_total(&self) -> int {
        sum(self.vote_weights@)
    }

    /// No power behind any of `num_choices` options.
    pub fn zero(num_choices: usize) -> (v: MultipleChoiceVotes)
        ensures
            v.vote_weights@ == Seq::new(num_choices as nat, |i: int| 0u128),
    {
        let mut w: Vec<u128> = Vec::new();
        let mut i: usize = 0;
        while i < num_choices
            invariant
                i <= num_choices,
                w@ == Seq::new(i as nat, |j: int| 0u128),
            decreases num_choices - i,
        {
            w.push(0);
            i = i + 1;
        }
        MultipleChoiceVotes { vote_weights: w }
    }

    /// The power behind all options.
    pub fn total(&self) -> (t: u128)
        requires
            self.spec_total() <= u128::MAX,
        ensures
            t == self.spec_total(),
    {
        let mut t: u128 = 0;
        let mut i: usize = 0;
        while i < self.vote_weights.len()
            invariant
                i <= self.vote_weights.len(),
                sum(self.vote_weights@) <= u128::MAX,
                t == sum(self.vote_weights@.subrange(0, i as int)),
            decreases self.vote_weights.len() - i,
        {
            proof {
                let s = self.vote_weights@;
                assert(s.subrange(0, i + 1).drop_last() =~= s.subrange(0, i as int));
                lemma_sum_prefix_bound(s, i + 1);
            }
            t = t + self.vote_weights[i];
            i = i + 1;
        }
        proof {
            assert(self.vote_weights@.subrange(0, i as int) =~= self.vote_weights@);
        }
        t
    }

    /// Counts `weight` more for the chosen option.
    pub fn add_vote(&mut self, vote: MultipleChoiceVote, weight: u128) -> (res: Result<(), ()>)
        requires
            (vote.option_id as int) < old(self).vote_weights@.len(),
        ensures
            res is Ok <==> old(self).vote_weights@[vote.option_id as int] + weight <= u128::MAX,
            res is Ok ==> final(self).vote_weights@ == old(self).vote_weights@.update(
                vote.option_id as int,
                (old(self).vote_weights@[vote.option_id as int] + weight) as u128,
            ),
            res is Err ==> *final(self) == *old(self),
    {
        let i = vote.option_id as usize;
        let w = self.vote_weights[i];
        if w > u128::MAX - weight {
            return Err(());
        }
        self.vote_weights.set(i, w + weight);
        Ok(())
    }

    /// Counts `weight` less for the chosen option.
    pub fn remove_vote(&mut self, vote: MultipleChoiceVote, weight: u128)
        requires
            (vote.option_id as int) < old(self).vote_weights@.len(),
            weight <= old(self).vote_weights@[vote.option_id as int],
        ensures
            final(self).vote_weights@ == old(self).vote_weights@.update(
                vote.option_id as int,
                (old(self).vote_weights@[vote.option_id as int] - weight) as u128,
            ),
    {
        let i = vote.option_id as usize;
        let w = self.vote_weights[i];
        self.vote_weights.set(i, w - weight);
    }
}

/// A prefix of the weights sums to at most the whole.
pub proof fn lemma_sum_prefix_bound(s: Seq<u128>, n: int)
    requires
        0 <= n <= s.len(),
    ensures
        sum(s.subrange(0, n)) <= sum(s),
        0 <= sum(s.subrange(0, n)),
    decreases s.len(),
{
    lemma_sum_nonneg(s.subrange(0, n));
    if n < s.len() {
        lemma_sum_nonneg(s.drop_last());
        assert(s.drop_last().subrange(0, n) =~= s.subrange(0, n));
        lemma_sum_prefix_bound(s.drop_last(), n);
    } else {
        assert(s.subrange(0, n) =~= s);
    }
}

/// The queries that every voting power module answers.
#[derive(Clone, Debug, PartialEq, Eq)]
pub enum Query {
    /// The voting power of `address` at `height` (or now).
    VotingPowerAtHeight { address: String, height: Option<u64> },
    /// The total voting power at `height` (or now).
    TotalPowerAtHeight { height: Option<u64> },
    /// The module's contract name and version.
    Info {},
}

/// Reply to `Query::VotingPowerAtHeight`.
#[derive(Clone, Debug, PartialEq, Eq)]
pub struct VotingPowerAtHeightResponse {
    pub power: u128,
    pub height: u64,
}

/// Reply to `Query::TotalPowerAtHeight`.
#[derive(Clone, Debug, PartialEq, Eq)]
pub struct TotalPowerAtHeightResponse {
    pub power: u128,
    pub height: u64,
}

/// A contract's name and version.
#[derive(Clone, Debug, PartialEq, Eq)]
pub struct ContractVersion {
    pub contract: String,
    pub version: String,
}

/// Reply to `Query::Info`.
#[derive(Clone, Debug, PartialEq, Eq)]
pub struct InfoResponse {
    pub info: ContractVersion,
}

} // verus!
