//! The multiple choice proposal module.
pub mod contract;
pub mod error;
pub mod msg;
pub mod proposal;
pub mod query;
pub mod state;
pub mod voting_strategy;
pub mod weights;
