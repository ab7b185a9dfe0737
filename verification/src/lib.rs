//! A metered subscription-billing ledger: staking yield that accrues linearly
//! in time, a fixed rewards-before-principal spend order, usage aggregated
//! into billing periods, and invoices that settle exactly once.
//!
//! Amounts and identifiers are 256-bit numbers. Each ledger numbers what it
//! files from one; a number beyond those it has given out names nothing.
//! Time is counted in seconds.

pub mod accrual;
pub mod amount;
pub mod billing_engine;
pub mod error;
pub mod identity;
pub mod prepaid;
pub mod stake_to_pay;
pub mod subscription_manager;
pub mod table;
pub mod tally;
pub mod usage_meter;
pub mod wide_amount;
