//! Who the federation's members are and how they are reached.

use crate::solana::pubkey::Pubkey;
use vstd::prelude::*;

verus! {

/// A validator's signer and where it listens.
#[derive(Debug, Clone, PartialEq, Eq)]
pub struct PeerEndpoint {
    pub validator_pubkey: Pubkey,
    pub uri: String,
}

/// What mutual TLS needs: the federation's own authority, and this member's
/// certificate and key.
#[derive(Debug, Clone, PartialEq, Eq)]
pub struct TlsMaterial {
    pub ca_pem: Vec<u8>,
    pub cert_pem: Vec<u8>,
    pub key_pem: Vec<u8>,
}

} // verus!
