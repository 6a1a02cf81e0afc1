//! The messages of a pre-propose module, which stands between
//! proposers and a single choice proposal module: it takes deposits and
//! decides who may propose. The module fills in the proposer of a new
//! proposal from the sender of the message.
use crate::deposit::DepositInfo;
use crate::std_error::StdError;
use vstd::prelude::*;

verus! {

/// Why a pre-propose module refuses a message.
#[derive(Clone, Copy, Debug, PartialEq, Eq, Structural)]
pub enum PreProposeError {
    Std(StdError),
    /// The deposit denomination is invalid.
    Denom {},
    /// The deposit configuration is invalid.
    Deposit {},
    /// The sender is not the proposal module.
    NotModule {},
    /// The sender is not the DAO.
    NotDao {},
    /// Only members (holders of voting power) may propose.
    NotMember {},
    /// No denomination was given to withdraw.
    NoWithdrawalDenom {},
    NothingToWithdraw {},
}

/// No data.
#[derive(Clone, Copy, Debug, PartialEq, Eq, Structural)]
pub struct Empty {}

/// The creation message of a pre-propose module.
#[derive(Clone, Debug, PartialEq, Eq)]
pub struct InstantiateMsg<InstantiateExt> {
    /// The deposit required to propose, if any.
    pub deposit_info: Option<DepositInfo>,
    /// If false, only members may propose; otherwise anyone who pays the
    /// deposit.
    pub open_proposal_submission: bool,
    pub ext: InstantiateExt,
}

/// What the proposal module tells its hook receivers.
#[derive(Clone, Debug, PartialEq, Eq)]
pub enum ProposalHookMsg {
    NewProposal { id: u64, proposer: String },
    ProposalStatusChanged { id: u64, old_status: String, new_status: String },
}

/// What a pre-propose module can be asked to do.
#[derive(Clone, Debug, PartialEq, Eq)]
pub enum ExecuteMsg<ProposalMessage, ExecuteExt> {
    /// Create a proposal from this message.
    Propose { msg: ProposalMessage },
    /// An extension; the base module does nothing with it.
    Ext { msg: ExecuteExt },
    /// A hook fired by the proposal module.
    ProposalHook(ProposalHookMsg),
}

/// What a pre-propose module can be asked about.
#[derive(Clone, Debug, PartialEq, Eq)]
pub enum QueryMsg<QueryExt> {
    ProposalModule {},
    Dao {},
    Config {},
    Ext { msg: QueryExt },
}

/// A proposal as a proposer writes it.
#[derive(Clone, Debug, PartialEq, Eq)]
pub enum ProposeMessage {
    Propose { title: String, description: String, msgs: Vec<String> },
}

/// A proposal with its proposer filled in.
#[derive(Clone, Debug, PartialEq, Eq)]
pub enum ProposeMessageInternal {
    Propose { title: String, description: String, msgs: Vec<String>, proposer: Option<String> },
}

/// The message as the base module handles it: a proposal gets `sender`
/// as its proposer; other messages pass unchanged.
pub fn internalize(msg: ExecuteMsg<ProposeMessage, Empty>, sender: String) -> (r: ExecuteMsg<ProposeMessageInternal, Empty>)
    ensures
        match msg {
            ExecuteMsg::Propose { msg: ProposeMessage::Propose { title, description, msgs } } => r == ExecuteMsg::<
                ProposeMessageInternal,
                Empty,
            >::Propose {
                msg: ProposeMessageInternal::Propose { title, description, msgs, proposer: Some(sender) },
            },
            ExecuteMsg::Ext { msg } => r == ExecuteMsg::<ProposeMessageInternal, Empty>::Ext { msg },
            ExecuteMsg::ProposalHook(h) => r == ExecuteMsg::<ProposeMessageInternal, Empty>::ProposalHook(h),
        },
{
    match msg {
        ExecuteMsg::Propose { msg: ProposeMessage::Propose { title, description, msgs } } => ExecuteMsg::Propose {
            msg: ProposeMessageInternal::Propose { title, description, msgs, proposer: Some(sender) },
        },
        ExecuteMsg::Ext { msg } => ExecuteMsg::Ext { msg },
        ExecuteMsg::ProposalHook(h) => ExecuteMsg::ProposalHook(h),
    }
}

} // verus!
