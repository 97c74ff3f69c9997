//! Goldcoin transactions and the signatures collected for them.

use vstd::prelude::*;

verus! {

#[derive(Debug, Clone, PartialEq, Eq)]
pub struct TxInput {
    /// The spent transaction's id in internal order, as it is serialized.
    pub prev_txid: [u8; 32],
    pub prev_vout: u32,
    pub script_sig: Vec<u8>,
    pub sequence: u32,
}

#[derive(Debug, Clone, PartialEq, Eq)]
pub struct TxOutput {
    pub value: u64,
    pub script_pubkey: Vec<u8>,
}

#[derive(Debug, Clone, PartialEq, Eq)]
pub struct Transaction {
    pub version: i32,
    pub inputs: Vec<TxInput>,
    pub outputs: Vec<TxOutput>,
    pub lock_time: u32,
}

/// One signer's signatures, one per input, in input order.
#[derive(Debug, Clone, PartialEq, Eq)]
pub struct PartialSignature {
    pub vault_pubkey: [u8; 33],
    pub signatures: Vec<Vec<u8>>,
}

} // verus!
