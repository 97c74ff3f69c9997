//! The Solana side: keys, derived addresses, instructions and accounts.

pub mod confirm;
pub mod duration;
pub mod instruction;
pub mod pubkey;
pub mod rpc;
