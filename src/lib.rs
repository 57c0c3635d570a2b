//! A pooled liquid-staking protocol: a scored registry of delegation counterparties, a
//! selection engine with tolerance-banded weighted sampling, and a ledger that follows
//! each counterparty's funds through asynchronous operations.

pub mod admin;
pub mod common;
pub mod constants;
pub mod contract;
pub mod coordinator;
pub mod delegate;
pub mod delegation;
pub mod errors;
pub mod governance;
pub mod ledger;
pub mod math;
pub mod migration;
pub mod model;
pub mod penalty;
pub mod proxies;
pub mod rewards;
pub mod score;
pub mod selection;
pub mod undelegate;
pub mod withdraw;
