//! The decision logic of the Goldcoin <-> Solana bridge.
//!
//! Every rule that decides what is signed, broadcast, or submitted lives here
//! as a function from plain values to plain values. Nothing in this crate
//! opens a socket, reads a file, or looks at a clock.

pub mod bytes;
pub mod glc;
pub mod hash;
pub mod ops;
pub mod p2p;
pub mod program;
pub mod solana;
pub mod text;
pub mod withdrawal;

