//! The part of the on-chain program that names the wrapped coin.

pub mod errors;
pub mod token_metadata;
