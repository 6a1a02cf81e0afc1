//! The single choice proposal module with vote comments checks its
//! voting periods exactly as the single choice module does.
pub use crate::proposal_single::utils::validate_voting_period;
