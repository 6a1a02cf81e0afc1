//! The single choice (yes/no/abstain) proposal module.
pub mod error;
pub mod proposal;
pub mod state;
pub mod utils;
pub mod contract;
pub mod v1_state;
pub mod msg;
pub mod messages;
