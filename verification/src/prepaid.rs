//! The prepaid edition of the protocol: plans at a fixed price per period,
//! paid in advance, and plain stake balances with a switch per plan for
//! paying out of them.

pub mod stake_to_pay;
pub mod subscription_manager;
