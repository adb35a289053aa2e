//! A streaming payments engine: per-client accounts fed one transaction at a
//! time (deposits, withdrawals, disputes, resolutions and chargebacks).
//!
//! Amounts are fixed-point decimals with four places; every balance change
//! the engine makes is stated against a mathematical ledger model.

pub mod account;
pub mod engine;
pub mod error;
pub mod laws;
pub mod ledger;
pub mod model;
pub mod record;
