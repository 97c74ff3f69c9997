//! The configuration of the withdrawal side.

use crate::withdrawal::vault::MultisigVault;
use vstd::prelude::*;

verus! {

/// What an operator configures. None of it has a default.
#[derive(Debug, PartialEq, Eq)]
pub struct WithdrawalConfig {
    pub vault: MultisigVault,
    pub vault_address: String,
    pub change_address: String,
    pub change_hash160: [u8; 20],
    /// Atomic units per 1000 bytes.
    pub fee_rate_per_kb: u64,
    pub dust_threshold_atomic: u64,
    pub vault_min_confirmations: i64,
    /// Confirmations at which a payout is complete.
    pub confirmation_depth: i64,
    pub max_inputs_per_payout: usize,
    pub reservation_timeout_secs: i64,
}

} // verus!
