//! The deposit a proposer may be asked to make.
use vstd::prelude::*;

verus! {

/// Which token a proposal deposit is paid in.
#[derive(Clone, Debug, PartialEq, Eq)]
pub enum DepositToken {
    /// The cw20 token at this address.
    Token { address: String },
    /// The token of the DAO's voting module.
    VotingModuleToken {},
}

/// The deposit required to create a proposal, as configured.
#[derive(Clone, Debug, PartialEq, Eq)]
pub struct DepositInfo {
    pub token: DepositToken,
    pub deposit: u128,
    pub refund_failed_proposals: bool,
}

/// The deposit required to create a proposal, with its token resolved
/// to an address.
#[derive(Clone, Debug, PartialEq, Eq)]
pub struct CheckedDepositInfo {
    pub token: String,
    pub deposit: u128,
    pub refund_failed_proposals: bool,
}

} // verus!
