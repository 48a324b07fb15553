//! Population-adjusted preference-index and conversation-funnel analysis for a
//! personal match log.
//!
//! The crate classifies self-reported ethnicity flag sets into race
//! categories under a fixed precedence policy, aggregates external census
//! records into population-weight distributions, combines observed match
//! counts with those distributions into a ranked preference index, and
//! derives conversation-outcome ratios.  All fractional quantities are exact
//! integer rationals.

pub mod baseline;
pub mod ethnicity;
pub mod funnel;
pub mod preference;
pub mod profile;
pub mod race;
pub mod rat;
