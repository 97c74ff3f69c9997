//! The multisig vault that holds the bridged coins.

use crate::glc::hex;
use crate::withdrawal::coin::{multisig_input_bytes, multisig_input_size};
use crate::withdrawal::sweep::{p2sh_script, p2sh_script_pubkey};
use vstd::prelude::*;

verus! {

/// A P2SH m-of-n vault.
#[derive(Debug, PartialEq, Eq)]
pub struct MultisigVault {
    /// How many signers a spend needs.
    pub threshold: usize,
    /// The signers' compressed public keys, in redeem-script order.
    pub signer_pubkeys: Vec<[u8; 33]>,
    pub redeem_script: Vec<u8>,
    pub script_hash160: [u8; 20],
    pub address: String,
}

impl MultisigVault {
    /// Bytes that one signed input of this vault contributes.
    pub open spec fn input_size(self) -> nat {
        multisig_input_size(self.threshold as nat, self.redeem_script@.len())
    }

    /// Whether an input of this vault has a size at all.
    pub open spec fn sized(self) -> bool {
        self.input_size() <= u64::MAX
    }

    /// How many signers the vault has.
    pub fn signer_count(&self) -> (n: usize)
        ensures
            n == self.signer_pubkeys@.len(),
    {
        self.signer_pubkeys.len()
    }

    /// The redeem script in hexadecimal.
    pub fn redeem_script_hex(&self) -> (text: String)
        ensures
            text@ == hex::hex_text(self.redeem_script@),
    {
        hex::encode(self.redeem_script.as_slice())
    }

    /// The script that pays the vault, in hexadecimal.
    pub fn script_pubkey_hex(&self) -> (text: String)
        ensures
            text@ == hex::hex_text(p2sh_script(self.script_hash160@)),
    {
        let script: Vec<u8> = p2sh_script_pubkey(&self.script_hash160);
        hex::encode(script.as_slice())
    }

    /// Bytes that one signed input of this vault contributes.
    ///
    /// Derived, never a constant: the size depends on the threshold and the
    /// redeem script.
    pub fn input_bytes(&self) -> (bytes: u64)
        requires
            self.sized(),
        ensures
            bytes == self.input_size(),
    {
        multisig_input_bytes(self.threshold, self.redeem_script.len())
    }
}

impl MultisigVault {
    /// An input of the vault has room for a signature of every signer that a spend
    /// needs, and for the whole redeem script.
    pub proof fn an_input_has_room_for_the_vaults_signatures(self)
        ensures
            self.input_size() >= 43 + 74 * self.threshold + self.redeem_script@.len(),
            self.input_size() <= 49 + 74 * self.threshold + self.redeem_script@.len(),
            self.sized() <==> self.input_size() <= u64::MAX,
    {
        crate::withdrawal::coin::a_signed_input_has_room_for_its_signatures(
            self.threshold as nat,
            self.redeem_script@.len(),
        );
    }
}

} // verus!
