//! The messages the single choice proposal module sends: the execution
//! of a passed proposal's messages by the DAO, and the notices to the
//! contracts registered as proposal or vote hooks. Each notice asks for
//! a reply only on error, tagged with the receiver's index, so that a
//! failing receiver can be dropped.
use crate::hooks::Hooks;
use crate::proposal_single::contract::TaggedReplyId;
use crate::status::Status;
use crate::voting::Vote;
use vstd::prelude::*;

verus! {

/// What a hook receiver is told.
#[derive(Clone, Debug, PartialEq, Eq)]
pub enum HookMsg {
    /// Proposal `id` was created by `proposer`.
    NewProposal { id: u64, proposer: String },
    /// The status of proposal `id` changed.
    ProposalStatusChanged { id: u64, old_status: Status, new_status: Status },
    /// `voter` cast `vote` on proposal `proposal_id`.
    NewVote { proposal_id: u64, voter: String, vote: Vote },
}

impl HookMsg {
    /// An equal message.
    pub fn copy(&self) -> (r: HookMsg)
        ensures
            r == *self,
    {
        match self {
            HookMsg::NewProposal { id, proposer } => HookMsg::NewProposal {
                id: *id,
                proposer: proposer.clone(),
            },
            HookMsg::ProposalStatusChanged { id, old_status, new_status } => {
                HookMsg::ProposalStatusChanged {
                    id: *id,
                    old_status: *old_status,
                    new_status: *new_status,
                }
            },
            HookMsg::NewVote { proposal_id, voter, vote } => HookMsg::NewVote {
                proposal_id: *proposal_id,
                voter: voter.clone(),
                vote: *vote,
            },
        }
    }
}

/// A notice to the hook receiver `addr`, answered with a reply only if
/// the receiver fails, tagged `reply_on_error`.
#[derive(Clone, Debug, PartialEq, Eq)]
pub struct HookSubMsg {
    pub addr: String,
    pub msg: HookMsg,
    pub reply_on_error: TaggedReplyId,
}

/// The execution of a passed proposal's messages by the DAO `dao`. If
/// `reply_on_error` is set, a failure is answered with a reply so tagged
/// and the proposal is marked as failed; otherwise a failure undoes the
/// whole execution.
#[derive(Clone, Debug, PartialEq, Eq)]
pub struct ExecutionMsg {
    pub dao: String,
    pub msgs: Vec<String>,
    pub reply_on_error: Option<TaggedReplyId>,
}

/// The tag of the reply to a failure of the hook receiver at `index`.
pub open spec fn hook_tag(vote_hooks: bool, index: int) -> TaggedReplyId {
    if vote_hooks {
        TaggedReplyId::FailedVoteHook(index as u64)
    } else {
        TaggedReplyId::FailedProposalHook(index as u64)
    }
}

/// A notice as an address, a message and a reply tag.
pub open spec fn notice_view(m: HookSubMsg) -> (Seq<char>, HookMsg, TaggedReplyId) {
    (m.addr@, m.msg, m.reply_on_error)
}

/// The notices, each as an address, a message and a reply tag.
pub open spec fn notices(r: Seq<HookSubMsg>) -> Seq<(Seq<char>, HookMsg, TaggedReplyId)> {
    r.map_values(|m: HookSubMsg| notice_view(m))
}

/// `msg` sent to every receiver in `hooks`, in order.
pub open spec fn hook_notices(hooks: Seq<Seq<char>>, msg: HookMsg, vote_hooks: bool) -> Seq<
    (Seq<char>, HookMsg, TaggedReplyId),
> {
    Seq::new(hooks.len(), |i: int| (hooks[i], msg, hook_tag(vote_hooks, i)))
}

/// The notices of a change of status: none where the status stayed the
/// same.
pub open spec fn status_change_notices(
    hooks: Seq<Seq<char>>,
    id: u64,
    old_status: Status,
    new_status: Status,
) -> Seq<(Seq<char>, HookMsg, TaggedReplyId)> {
    if old_status == new_status {
        Seq::empty()
    } else {
        hook_notices(
            hooks,
            HookMsg::ProposalStatusChanged { id, old_status, new_status },
            false,
        )
    }
}

/// `msg` for every receiver in `hooks`.
fn prepare_hooks(hooks: &Hooks, msg: &HookMsg, vote_hooks: bool) -> (r: Vec<HookSubMsg>)
    ensures
        notices(r@) == hook_notices(hooks.view(), *msg, vote_hooks),
{
    let mut r: Vec<HookSubMsg> = Vec::new();
    let mut i: usize = 0;
    while i < hooks.hooks.len()
        invariant
            i <= hooks.hooks@.len(),
            notices(r@) == hook_notices(hooks.view(), *msg, vote_hooks).subrange(0, i as int),
        decreases hooks.hooks.len() - i,
    {
        let index = i as u64;
        let reply_on_error = if vote_hooks {
            TaggedReplyId::FailedVoteHook(index)
        } else {
            TaggedReplyId::FailedProposalHook(index)
        };
        let ghost before = r@;
        r.push(HookSubMsg { addr: hooks.hooks[i].clone(), msg: msg.copy(), reply_on_error });
        proof {
            assert(notices(r@) =~= notices(before).push(notice_view(r@[i as int])));
            assert(notices(r@) =~= hook_notices(hooks.view(), *msg, vote_hooks).subrange(
                0,
                i + 1,
            ));
        }
        i = i + 1;
    }
    proof {
        assert(hook_notices(hooks.view(), *msg, vote_hooks).subrange(0, i as int) =~= hook_notices(
            hooks.view(),
            *msg,
            vote_hooks,
        ));
    }
    r
}

/// Tells every proposal hook that proposal `id` was created by
/// `proposer`.
pub fn new_proposal_hooks(hooks: &Hooks, id: u64, proposer: &String) -> (r: Vec<HookSubMsg>)
    ensures
        notices(r@) == hook_notices(
            hooks.view(),
            HookMsg::NewProposal { id, proposer: *proposer },
            false,
        ),
{
    prepare_hooks(hooks, &HookMsg::NewProposal { id, proposer: proposer.clone() }, false)
}

/// Tells every proposal hook that the status of proposal `id` changed;
/// nothing is sent where it stayed the same.
pub fn proposal_status_changed_hooks(
    hooks: &Hooks,
    id: u64,
    old_status: Status,
    new_status: Status,
) -> (r: Vec<HookSubMsg>)
    ensures
        notices(r@) == status_change_notices(hooks.view(), id, old_status, new_status),
{
    if old_status == new_status {
        let r: Vec<HookSubMsg> = Vec::new();
        proof {
            assert(notices(r@) =~= Seq::<(Seq<char>, HookMsg, TaggedReplyId)>::empty());
        }
        return r;
    }
    prepare_hooks(hooks, &HookMsg::ProposalStatusChanged { id, old_status, new_status }, false)
}

/// Tells every vote hook that `voter` cast `vote` on proposal
/// `proposal_id`.
pub fn new_vote_hooks(hooks: &Hooks, proposal_id: u64, voter: &String, vote: Vote) -> (r: Vec<
    HookSubMsg,
>)
    ensures
        notices(r@) == hook_notices(
            hooks.view(),
            HookMsg::NewVote { proposal_id, voter: *voter, vote },
            true,
        ),
{
    prepare_hooks(hooks, &HookMsg::NewVote { proposal_id, voter: voter.clone(), vote }, true)
}

} // verus!
