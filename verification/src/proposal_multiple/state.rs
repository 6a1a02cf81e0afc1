//! The options of a multiple choice proposal, the module's
//! configuration and its ballots.
use crate::deposit::CheckedDepositInfo;
use crate::expiration::Duration;
use crate::proposal_multiple::error::ContractError;
use crate::proposal_multiple::voting_strategy::VotingStrategy;
use crate::proposal_single::proposal::copy_strings;
use crate::voting::MultipleChoiceVote;
use vstd::prelude::*;
use vstd::string::StringExecFns;

verus! {

/// The largest number of options a proposal may offer (besides "none
/// of the above").
pub const MAX_NUM_CHOICES: u32 = 10;

/// Whether an option is a real choice or "none of the above".
#[derive(Clone, Copy, Debug, PartialEq, Eq, Structural)]
pub enum MultipleChoiceOptionType {
    /// Selecting none of the options; still counts toward quorum and
    /// lets a proposal whose options are all bad be voted down.
    NoneOfTheAbove,
    Standard,
}

/// An option as proposed: a description and the messages the DAO
/// executes if it wins (each one serialized).
#[derive(Clone, Debug)]
pub struct MultipleChoiceOption {
    pub description: String,
    pub msgs: Option<Vec<String>>,
}

/// The options of a proposal, as proposed.
#[derive(Clone, Debug)]
pub struct MultipleChoiceOptions {
    pub options: Vec<MultipleChoiceOption>,
}

/// An option of a created proposal.
#[derive(Clone, Debug)]
pub struct CheckedMultipleChoiceOption {
    /// The option's position among the proposal's choices and vote
    /// weights.
    pub index: u32,
    pub option_type: MultipleChoiceOptionType,
    pub description: String,
    pub msgs: Option<Vec<String>>,
    pub vote_count: u128,
}

/// The options of a created proposal.
#[derive(Clone, Debug)]
pub struct CheckedMultipleChoiceOptions {
    pub options: Vec<CheckedMultipleChoiceOption>,
}

/// The contents of optional messages.
pub open spec fn msgs_view(m: Option<Vec<String>>) -> Option<Seq<String>> {
    match m {
        Some(v) => Some(v@),
        None => None,
    }
}

/// A copy of optional messages.
pub fn copy_msgs(m: &Option<Vec<String>>) -> (r: Option<Vec<String>>)
    ensures
        msgs_view(r) == msgs_view(*m),
{
    match m {
        Some(v) => Some(copy_strings(v)),
        None => None,
    }
}

impl CheckedMultipleChoiceOption {
    /// The two options hold the same fields (messages compared by their
    /// contents).
    pub open spec fn same_as(&self, other: CheckedMultipleChoiceOption) -> bool {
        &&& self.index == other.index
        &&& self.option_type == other.option_type
        &&& self.description == other.description
        &&& msgs_view(self.msgs) == msgs_view(other.msgs)
        &&& self.vote_count == other.vote_count
    }

    /// A copy of the option.
    pub fn duplicate(&self) -> (r: CheckedMultipleChoiceOption)
        ensures
            r.same_as(*self),
    {
        CheckedMultipleChoiceOption {
            index: self.index,
            option_type: self.option_type,
            description: self.description.clone(),
            msgs: copy_msgs(&self.msgs),
            vote_count: self.vote_count,
        }
    }
}

/// Option `i` of a checked list is proposed option `i`, with no votes.
pub open spec fn checked_from(c: CheckedMultipleChoiceOption, o: MultipleChoiceOption, i: int) -> bool {
    &&& c.index == i
    &&& c.option_type == MultipleChoiceOptionType::Standard
    &&& c.description == o.description
    &&& msgs_view(c.msgs) == msgs_view(o.msgs)
    &&& c.vote_count == 0
}

/// The "none of the above" option at position `i`.
pub open spec fn is_none_option(c: CheckedMultipleChoiceOption, i: int) -> bool {
    &&& c.index == i
    &&& c.option_type == MultipleChoiceOptionType::NoneOfTheAbove
    &&& c.description@ == "None of the above"@
    &&& c.msgs is None
    &&& c.vote_count == 0
}

impl MultipleChoiceOptions {
    /// Numbers the proposed options and adds a "none of the above"
    /// option after them. A proposal needs between 2 and
    /// `MAX_NUM_CHOICES` options.
    pub fn into_checked(self) -> (r: Result<CheckedMultipleChoiceOptions, ContractError>)
        ensures
            (self.options@.len() < 2 || self.options@.len() > MAX_NUM_CHOICES) ==> r
                == Err::<CheckedMultipleChoiceOptions, ContractError>(
                ContractError::WrongNumberOfChoices {},
            ),
            !(self.options@.len() < 2 || self.options@.len() > MAX_NUM_CHOICES) ==> (r matches Ok(
                c,
            ) && c.options@.len() == self.options@.len() + 1 && (forall|i: int|
                0 <= i < self.options@.len() ==> #[trigger] checked_from(
                    c.options@[i],
                    self.options@[i],
                    i,
                )) && is_none_option(c.options@[self.options@.len() as int], self.options@.len() as int)),
    {
        let n = self.options.len();
        if n < 2 || n > MAX_NUM_CHOICES as usize {
            return Err(ContractError::WrongNumberOfChoices {});
        }
        let mut checked: Vec<CheckedMultipleChoiceOption> = Vec::new();
        let mut i: usize = 0;
        while i < n
            invariant
                n == self.options@.len(),
                n <= MAX_NUM_CHOICES,
                i <= n,
                checked@.len() == i,
                forall|j: int| 0 <= j < i ==> #[trigger] checked_from(checked@[j], self.options@[j], j),
            decreases n - i,
        {
            let o = &self.options[i];
            let c = CheckedMultipleChoiceOption {
                index: i as u32,
                option_type: MultipleChoiceOptionType::Standard,
                description: o.description.clone(),
                msgs: copy_msgs(&o.msgs),
                vote_count: 0,
            };
            checked.push(c);
            i = i + 1;
        }
        let none_option = CheckedMultipleChoiceOption {
            index: n as u32,
            option_type: MultipleChoiceOptionType::NoneOfTheAbove,
            description: String::from_str("None of the above"),
            msgs: None,
            vote_count: 0,
        };
        checked.push(none_option);
        Ok(CheckedMultipleChoiceOptions { options: checked })
    }
}

/// The module's configuration.
#[derive(Clone, Debug)]
pub struct Config {
    /// How votes are counted.
    pub voting_strategy: VotingStrategy,
    /// How long a proposal must be open before it may pass.
    pub min_voting_period: Option<Duration>,
    /// How long a proposal may be voted on before it expires.
    pub max_voting_period: Duration,
    /// If set, only members may execute passed proposals.
    pub only_members_execute: bool,
    /// The DAO this module belongs to.
    pub dao: String,
    /// The deposit required to create a proposal, if any.
    pub deposit_info: Option<CheckedDepositInfo>,
}

/// Information about a vote that was cast.
#[derive(Clone, Debug)]
pub struct VoteInfo {
    pub voter: String,
    pub vote: MultipleChoiceVote,
    pub power: u128,
}

/// A vote cast on a proposal.
#[derive(Clone, Copy, Debug, PartialEq, Eq, Structural)]
pub struct Ballot {
    /// The voting power behind the vote.
    pub power: u128,
    /// The chosen option.
    pub vote: MultipleChoiceVote,
}

impl crate::table::Duplicate for Ballot {
    fn duplicate(&self) -> (r: Ballot) {
        *self
    }
}

} // verus!
