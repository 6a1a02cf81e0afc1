//! Verified decision logic of a family of DAO governance contracts:
//! vote counting and passing thresholds, single and multiple choice
//! proposal modules, the DAO core, a fund distributor, a names
//! registry and named groups.
use vstd::prelude::*;

pub mod math;
pub mod key_order;
pub mod table;
pub mod hooks;
pub mod std_error;
pub mod threshold;
pub mod voting;
pub mod status;
pub mod expiration;
pub mod deposit;
pub mod proposal_single;
pub mod proposal_multiple;
pub mod proposal_single_w_vote_comments;
pub mod govmod_single;
pub mod reply;
pub mod reply_id;
pub mod governance;
pub mod names_registry;
pub mod named_groups;
pub mod native_voting;
pub mod pre_propose;
pub mod fund_distributor;

verus! {

} // verus!
