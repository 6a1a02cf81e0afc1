//! Why the multiple choice proposal module refuses a message.
use crate::hooks::HookError;
use crate::std_error::StdError;
use crate::threshold::ThresholdError;
use vstd::prelude::*;

verus! {

#[derive(Clone, Copy, Debug, PartialEq, Eq, Structural)]
pub enum ContractError {
    Std(StdError),
    HookError(HookError),
    Unauthorized {},
    ThresholdError(ThresholdError),
    /// The suggested expiration is later than the maximum voting period.
    InvalidExpiration {},
    NoSuchProposal { id: u64 },
    ProposalTooLarge { size: u64, max: u64 },
    NotOpen { id: u64 },
    Expired { id: u64 },
    /// The voter had no voting power when the proposal was created.
    NotRegistered {},
    AlreadyVoted {},
    NotPassed {},
    /// Two or more options have the same, highest, number of votes.
    Tie {},
    NotExpired {},
    /// Only rejected proposals may be closed.
    WrongCloseStatus {},
    InactiveDao {},
    /// A proposal must have between two and the maximum number of
    /// choices.
    WrongNumberOfChoices {},
    NoneOption {},
    NoVoteWeights {},
    /// The chosen option does not exist.
    InvalidVote {},
    MustHaveVotingPower {},
}

} // verus!
