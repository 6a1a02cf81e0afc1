//! Why the single choice proposal module refuses a message.
use crate::hooks::HookError;
use crate::reply::ReplyError;
use crate::reply_id::TagError;
use crate::std_error::StdError;
use crate::threshold::ThresholdError;
use vstd::prelude::*;

verus! {

#[derive(Clone, Copy, Debug, PartialEq, Eq, Structural)]
pub enum ContractError {
    Std(StdError),
    Reply(ReplyError),
    HookError(HookError),
    /// The sender may not do this.
    Unauthorized {},
    ThresholdError(ThresholdError),
    NoSuchProposal { id: u64 },
    /// The serialized proposal is larger than allowed.
    ProposalTooLarge { size: u64, max: u64 },
    NotOpen { id: u64 },
    Expired { id: u64 },
    /// The voter had no voting power when the proposal was created.
    NotRegistered {},
    /// Already voted, and this proposal does not allow revoting.
    AlreadyVoted {},
    /// Already cast a vote with that option.
    AlreadyCast {},
    NotPassed {},
    AlreadyExecuted {},
    Closed {},
    /// Only rejected proposals may be closed.
    WrongCloseStatus {},
    /// The DAO is inactive; proposals can not be created.
    InactiveDao {},
    /// The minimum and maximum voting periods use different units.
    DurationUnitsConflict {},
    /// The minimum voting period is longer than the maximum.
    InvalidMinVotingPeriod {},
    InvalidProposer {},
    PendingProposals {},
    InvalidHookIndex { idx: u64 },
    /// The reply id is of no known kind.
    Tag(TagError),
}

} // verus!
