//! Messages of the multiple choice proposal module that carry plain
//! values.
use crate::voting::MultipleChoiceVote;
use vstd::prelude::*;

verus! {

/// A vote on a proposal.
#[derive(Clone, Copy, Debug, PartialEq, Eq, Structural)]
pub struct VoteMsg {
    pub proposal_id: u64,
    pub vote: MultipleChoiceVote,
}

/// The message that migrates the module; it carries nothing.
#[derive(Clone, Copy, Debug, PartialEq, Eq, Structural)]
pub struct MigrateMsg {}

} // verus!
