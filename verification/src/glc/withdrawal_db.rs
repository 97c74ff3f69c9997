//! The rows a relayer keeps about the vault and the withdrawals it pays.

use vstd::prelude::*;

verus! {

/// One spendable output of the vault.
#[derive(Debug, PartialEq, Eq)]
pub struct VaultUtxo {
    /// The transaction id in display order, as a node prints it.
    pub txid: [u8; 32],
    pub txid_hex: String,
    pub vout: i64,
    pub amount_atomic: u64,
    pub script_pubkey_hex: String,
    pub confirmations: i64,
}

impl Clone for VaultUtxo {
    fn clone(&self) -> (copy: Self)
        ensures
            copy == *self,
    {
        VaultUtxo {
            txid: self.txid,
            txid_hex: self.txid_hex.clone(),
            vout: self.vout,
            amount_atomic: self.amount_atomic,
            script_pubkey_hex: self.script_pubkey_hex.clone(),
            confirmations: self.confirmations,
        }
    }
}

/// Where a withdrawal stands on its way to being paid.
#[derive(Debug, Clone, Copy, PartialEq, Eq, Structural)]
pub enum WithdrawalState {
    /// Seen on Solana, nothing checked yet.
    Observed,
    /// Can be paid.
    Validated,
    /// Can be paid once the vault has funds.
    AwaitingFunds,
    /// Its inputs are reserved.
    Building,
    /// Its transaction exists and is not signed.
    Signing,
    /// Its transaction is signed.
    Broadcast,
    /// A node knows its transaction.
    Confirming,
    /// Its transaction is signed and no node on the main chain knows it.
    Orphaned,
    /// Paid.
    Completed,
    /// Can never be paid.
    Failed,
    /// Something disagrees that must not; a person has to look.
    IntegrityHalted,
}

/// One withdrawal.
#[derive(Debug, PartialEq, Eq)]
pub struct WithdrawalRow {
    pub withdrawal_index: i64,
    pub state: WithdrawalState,
    pub protocol_version: u8,
    /// Where the payout goes, as the user wrote it.
    pub glc_address: String,
    /// The hash that the address decoded to when it was accepted.
    pub glc_address_hash160: [u8; 20],
    /// What was burned, which is what is paid.
    pub amount_atomic: u64,
}

/// What the signers of a payout have to agree on.
#[derive(Debug, PartialEq, Eq)]
pub struct PayoutIntent {
    pub protocol_version: u8,
    pub withdrawal_index: i64,
    pub vault_script_hash: [u8; 20],
    pub dest_hash160: [u8; 20],
    pub payout_atomic: u64,
    pub fee_atomic: u64,
    pub change_atomic: u64,
    /// Where the change goes; all zeros where there is none.
    pub change_hash160: [u8; 20],
    /// How often the signers were designated anew.
    pub quorum_attempt: u32,
    /// Which of the vault's signers are to sign, by position.
    pub quorum_indices: Vec<u8>,
    pub inputs: Vec<VaultUtxo>,
}

/// A payout that is about to be recorded, before anything is signed.
#[derive(Debug, PartialEq, Eq)]
pub struct NewPayout {
    pub withdrawal_index: i64,
    pub vault_script_hash: [u8; 20],
    /// Which of the vault's signers are to sign, by position.
    pub quorum_indices: Vec<u8>,
    pub quorum_attempt: u32,
    pub commitment_hash: [u8; 32],
    pub intent_bytes: Vec<u8>,
    pub fee_atomic: u64,
    pub payout_atomic: u64,
    pub change_atomic: u64,
    pub change_address: Option<String>,
    pub unsigned_tx_hex: String,
    pub inputs: Vec<VaultUtxo>,
    pub built_at: i64,
}

/// A payout that passed every guard in front of signing.
#[derive(Debug, PartialEq, Eq)]
pub struct SignablePayout {
    pub quorum_attempt: u32,
    pub intent_bytes: Vec<u8>,
    pub unsigned_tx_hex: String,
    pub quorum_indices: Vec<u8>,
}

/// The combined value of some outputs.
pub open spec fn total_value(utxos: Seq<VaultUtxo>) -> nat
    decreases utxos.len(),
{
    if utxos.len() == 0 {
        0
    } else {
        total_value(utxos.drop_last()) + utxos.last().amount_atomic as nat
    }
}

/// A prefix is worth no more than the whole.
pub proof fn lemma_total_value_prefix(utxos: Seq<VaultUtxo>, n: int)
    requires
        0 <= n <= utxos.len(),
    ensures
        total_value(utxos.take(n)) <= total_value(utxos),
    decreases utxos.len() - n,
{
    if n < utxos.len() {
        lemma_total_value_prefix(utxos, n + 1);
        assert(utxos.take(n + 1).drop_last() =~= utxos.take(n));
    } else {
        assert(utxos.take(n) =~= utxos);
    }
}

/// Adds the values of some outputs.
pub fn sum_values(utxos: &[VaultUtxo]) -> (sum: u64)
    requires
        total_value(utxos@) <= u64::MAX,
    ensures
        sum == total_value(utxos@),
{
    let mut sum: u64 = 0;
    let mut i: usize = 0;
    while i < utxos.len()
        invariant
            i <= utxos@.len(),
            sum == total_value(utxos@.take(i as int)),
            total_value(utxos@) <= u64::MAX,
        decreases utxos@.len() - i,
    {
        proof {
            lemma_total_value_prefix(utxos@, i + 1);
            assert(utxos@.take(i + 1).drop_last() =~= utxos@.take(i as int));
        }
        sum = sum + utxos[i].amount_atomic;
        i = i + 1;
    }
    assert(utxos@.take(utxos@.len() as int) =~= utxos@);
    sum
}

/// Copies a list of outputs.
pub fn copy_utxos(utxos: &[VaultUtxo]) -> (copy: Vec<VaultUtxo>)
    ensures
        copy@ == utxos@,
{
    let mut copy: Vec<VaultUtxo> = Vec::new();
    let mut i: usize = 0;
    while i < utxos.len()
        invariant
            i <= utxos@.len(),
            copy@ == utxos@.take(i as int),
        decreases utxos@.len() - i,
    {
        copy.push(utxos[i].clone());
        i = i + 1;
        assert(copy@ =~= utxos@.take(i as int));
    }
    assert(utxos@.take(utxos@.len() as int) =~= utxos@);
    copy
}

/// What outputs are worth together is what each adds: nothing for none, and
/// with one more its own value more.
pub proof fn every_output_counts_with_its_value(utxos: Seq<VaultUtxo>, another: VaultUtxo)
    ensures
        total_value(Seq::empty()) == 0,
        total_value(utxos.push(another)) == total_value(utxos) + another.amount_atomic,
{
    assert(utxos.push(another).drop_last() =~= utxos);
}

} // verus!
