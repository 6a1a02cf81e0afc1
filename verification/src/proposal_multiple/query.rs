//! Replies to queries of the multiple choice module, and the filters of
//! proposal listings.
use crate::proposal_multiple::proposal::ProposalResponse;
use crate::proposal_multiple::state::{Config, VoteInfo};
use crate::voting::MultipleChoiceVote;
use vstd::prelude::*;

verus! {

/// A page of proposals.
#[derive(Clone, Debug)]
pub struct ProposalListResponse {
    pub proposals: Vec<ProposalResponse>,
}

/// A voter's vote on a proposal, if it cast one.
#[derive(Clone, Debug)]
pub struct VoteResponse {
    pub vote: Option<VoteInfo>,
}

/// A page of the votes cast on a proposal.
#[derive(Clone, Debug)]
pub struct VoteListResponse {
    pub votes: Vec<VoteInfo>,
}

/// The voting power of a voter, if it has any.
#[derive(Clone, Copy, Debug, PartialEq, Eq, Structural)]
pub struct VoterResponse {
    pub weight: Option<u128>,
}

/// The module's configuration.
#[derive(Clone, Debug)]
pub struct ConfigResponse {
    pub config: Config,
}

/// A page of proposals picked by a filter, with the last proposal id
/// that was looked at (proposals past it may still match).
#[derive(Clone, Debug)]
pub struct FilterListProposalsResponse {
    pub proposals: Vec<ProposalResponse>,
    pub last_proposal_id: u64,
}

/// Which proposals a wallet-filtered listing returns.
#[derive(Clone, Copy, Debug, PartialEq, Eq, Structural)]
pub enum WalletVote {
    /// Those on which the wallet cast this vote.
    Voted(MultipleChoiceVote),
    /// Those on which the wallet did not vote.
    NotVoted {},
    /// Those on which the wallet voted at all.
    AnyVote {},
}

} // verus!
