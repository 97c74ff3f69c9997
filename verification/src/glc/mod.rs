//! The Goldcoin side: hexadecimal text, a node's answers, and the rows the
//! bridge keeps.

pub mod hex;
pub mod rpc;
pub mod withdrawal_db;
