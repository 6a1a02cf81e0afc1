//! The early single choice governance module, whose thresholds are
//! plain percentages.
pub mod contract;
pub mod proposal;
pub mod threshold;
