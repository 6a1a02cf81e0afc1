//! The ids of the replies a proposal module asks for. The three lowest
//! bits of an id tell what kind of message the reply answers; the bits
//! above them carry the proposal id or the hook receiver's index.
use vstd::prelude::*;

verus! {

/// The number of low bits that hold the kind of a reply.
pub const BITS_RESERVED_FOR_REPLY_TYPE: u64 = 3;

/// The kind of the reply to a failed proposal execution.
pub const FAILED_PROPOSAL_EXECUTION_MASK: u64 = 0;

/// The kind of the reply to a failed proposal hook.
pub const FAILED_PROPOSAL_HOOK_MASK: u64 = 1;

/// The kind of the reply to a failed vote hook.
pub const FAILED_VOTE_HOOK_MASK: u64 = 2;

/// The kind of the reply to the instantiation of a pre-propose module.
pub const PRE_PROPOSE_MODULE_INSTANTIATION_MASK: u64 = 3;

/// Why a reply id was refused.
#[derive(Clone, Copy, Debug, PartialEq, Eq, Structural)]
pub enum TagError {
    /// The id is of no known kind.
    UnknownReplyId { id: u64 },
}

/// What a reply id says.
#[derive(Clone, Copy, Debug, PartialEq, Eq, Structural)]
pub enum ReplyTag {
    /// Executing the messages of this proposal failed.
    FailedProposalExecution(u64),
    /// The proposal hook receiver at this index failed.
    FailedProposalHook(u64),
    /// The vote hook receiver at this index failed.
    FailedVoteHook(u64),
    /// A pre-propose module was instantiated.
    PreProposeModuleInstantiation,
}

/// `n` shifted above the kind bits (the bits shifted out of 64 are
/// lost), with the kind `kind` below.
pub open spec fn masked(n: u64, kind: u64) -> int {
    (n as int * 8) % 0x1_0000_0000_0000_0000 + kind
}

/// What `id` says.
pub open spec fn spec_tag(id: u64) -> Result<ReplyTag, TagError> {
    let n = (id / 8) as u64;
    if id % 8 == 0 {
        Ok(ReplyTag::FailedProposalExecution(n))
    } else if id % 8 == 1 {
        Ok(ReplyTag::FailedProposalHook(n))
    } else if id % 8 == 2 {
        Ok(ReplyTag::FailedVoteHook(n))
    } else if id % 8 == 3 {
        Ok(ReplyTag::PreProposeModuleInstantiation)
    } else {
        Err(TagError::UnknownReplyId { id })
    }
}

proof fn lemma_masked_fits(n: u64, kind: u64)
    requires
        kind < 8,
    ensures
        0 <= masked(n, kind) <= u64::MAX,
        (n as int * 8) % 0x1_0000_0000_0000_0000 % 8 == 0,
{
    let m = n as int * 8;
    assert(m % 0x1_0000_0000_0000_0000 % 8 == 0) by (nonlinear_arith)
        requires
            m == n as int * 8,
            n >= 0,
    ;
}

fn mask(n: u64, kind: u64) -> (r: u64)
    requires
        kind < 8,
    ensures
        r == masked(n, kind),
{
    proof {
        lemma_masked_fits(n, kind);
    }
    n.wrapping_mul(8) + kind
}

/// The id of the reply to a failed execution of proposal `proposal_id`.
pub fn mask_proposal_execution_proposal_id(proposal_id: u64) -> (r: u64)
    ensures
        r == masked(proposal_id, FAILED_PROPOSAL_EXECUTION_MASK),
{
    mask(proposal_id, FAILED_PROPOSAL_EXECUTION_MASK)
}

/// The id of the reply to a failure of the proposal hook at `index`.
pub fn mask_proposal_hook_index(index: u64) -> (r: u64)
    ensures
        r == masked(index, FAILED_PROPOSAL_HOOK_MASK),
{
    mask(index, FAILED_PROPOSAL_HOOK_MASK)
}

/// The id of the reply to a failure of the vote hook at `index`.
pub fn mask_vote_hook_index(index: u64) -> (r: u64)
    ensures
        r == masked(index, FAILED_VOTE_HOOK_MASK),
{
    mask(index, FAILED_VOTE_HOOK_MASK)
}

/// The id of the reply to the instantiation of a pre-propose module.
pub fn pre_propose_module_instantiation_id() -> (r: u64)
    ensures
        r == PRE_PROPOSE_MODULE_INSTANTIATION_MASK,
{
    PRE_PROPOSE_MODULE_INSTANTIATION_MASK
}

impl ReplyTag {
    /// Reads a reply id.
    pub fn new(id: u64) -> (r: Result<ReplyTag, TagError>)
        ensures
            r == spec_tag(id),
    {
        let n = id / 8;
        let kind = id % 8;
        if kind == FAILED_PROPOSAL_EXECUTION_MASK {
            Ok(ReplyTag::FailedProposalExecution(n))
        } else if kind == FAILED_PROPOSAL_HOOK_MASK {
            Ok(ReplyTag::FailedProposalHook(n))
        } else if kind == FAILED_VOTE_HOOK_MASK {
            Ok(ReplyTag::FailedVoteHook(n))
        } else if kind == PRE_PROPOSE_MODULE_INSTANTIATION_MASK {
            Ok(ReplyTag::PreProposeModuleInstantiation)
        } else {
            Err(TagError::UnknownReplyId { id })
        }
    }
}

proof fn lemma_unmask(n: u64, kind: u64)
    requires
        n < 0x2000_0000_0000_0000,
        kind < 8,
    ensures
        masked(n, kind) == n * 8 + kind,
        (n * 8 + kind) % 8 == kind,
        (n * 8 + kind) / 8 == n,
{
    assert(n * 8 < 0x1_0000_0000_0000_0000);
    vstd::arithmetic::div_mod::lemma_small_mod((n * 8) as nat, 0x1_0000_0000_0000_0000);
    vstd::arithmetic::div_mod::lemma_fundamental_div_mod_converse(n * 8 + kind, 8, n as int, kind as int);
}

/// Reading an id made for a proposal or a hook receiver gives back the
/// kind and the number it was made from, for every number that fits
/// above the kind bits.
pub proof fn law_reply_id_round_trip(n: u64)
    requires
        n < 0x2000_0000_0000_0000,
    ensures
        spec_tag(masked(n, FAILED_PROPOSAL_EXECUTION_MASK) as u64) == Ok::<ReplyTag, TagError>(
            ReplyTag::FailedProposalExecution(n),
        ),
        spec_tag(masked(n, FAILED_PROPOSAL_HOOK_MASK) as u64) == Ok::<ReplyTag, TagError>(
            ReplyTag::FailedProposalHook(n),
        ),
        spec_tag(masked(n, FAILED_VOTE_HOOK_MASK) as u64) == Ok::<ReplyTag, TagError>(
            ReplyTag::FailedVoteHook(n),
        ),
        spec_tag(PRE_PROPOSE_MODULE_INSTANTIATION_MASK) == Ok::<ReplyTag, TagError>(
            ReplyTag::PreProposeModuleInstantiation,
        ),
{
    lemma_unmask(n, FAILED_PROPOSAL_EXECUTION_MASK);
    lemma_unmask(n, FAILED_PROPOSAL_HOOK_MASK);
    lemma_unmask(n, FAILED_VOTE_HOOK_MASK);
}

} // verus!
