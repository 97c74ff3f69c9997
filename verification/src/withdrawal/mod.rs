//! Paying withdrawals out of the vault.

pub mod address;
pub mod broadcast;
pub mod builder;
pub mod building;
pub mod coin;
pub mod config;
pub mod executor;
pub mod multisig;
pub mod signing;
pub mod sweep;
pub mod vault;
