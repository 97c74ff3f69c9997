//! Payout transactions as a node decodes them, and what they have to be.

use crate::glc::withdrawal_db::VaultUtxo;
use vstd::prelude::*;

verus! {

/// The outpoint that one input spends.
#[derive(Debug, PartialEq, Eq)]
pub struct DecodedInput {
    pub txid_hex: String,
    pub vout: i64,
}

#[derive(Debug, PartialEq, Eq)]
pub struct DecodedOutput {
    pub value_atomic: u64,
    pub script_pubkey_hex: String,
}

/// A transaction as a node decodes it.
#[derive(Debug, PartialEq, Eq)]
pub struct DecodedTx {
    pub txid_hex: String,
    pub inputs: Vec<DecodedInput>,
    pub outputs: Vec<DecodedOutput>,
}

/// What a payout transaction has to spend and pay.
#[derive(Debug, PartialEq, Eq)]
pub struct PayoutPlan {
    pub dest_hash160: [u8; 20],
    /// Exactly the burned amount.
    pub payout_atomic: u64,
    /// The script that takes the change, where there is any.
    pub change_script_hex: Option<String>,
    pub change_atomic: u64,
    pub fee_atomic: u64,
    pub inputs: Vec<VaultUtxo>,
}

} // verus!
