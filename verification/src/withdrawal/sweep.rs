//! Vault sweep: moving the entire vault to a new vault.
//!
//! A sweep corresponds to nothing on chain. It spends the whole vault to an
//! address chosen by a human, so each operator stages the exact sweep out of
//! band and their signer signs that one sweep and nothing else. This module
//! plans a sweep, commits to it canonically, and checks that a proposed
//! transaction realises exactly the plan.

use crate::bytes::{
    le_bytes, le_value, lemma_le_bytes_injective, lemma_le_bytes_len, lemma_le_value_of_le_bytes,
    lemma_pow256, lemma_split_equal, push_all, push_le, same_bytes, to_bits64, twos_complement64,
};
use crate::glc::hex;
use crate::glc::withdrawal_db::{copy_utxos, sum_values, total_value, VaultUtxo};
use crate::hash::{sha256, sha256_digest};
use crate::text::{
    decimal, decimal_int, lemma_shows_both, lemma_shows_going_on, push_decimal, push_decimal_int,
    shows,
};
use crate::withdrawal::coin::{fee, fee_for, saturate, tx_size};
use crate::withdrawal::multisig::{Transaction, TxInput};
use vstd::prelude::*;

verus! {

/// Domain tag for the sweep commitment. Distinct from every other tag in the
/// system, so a sweep approval can never be replayed as something else.
pub const SWEEP_DOMAIN_TAG: [u8; 16] = [71, 76, 67, 95, 66, 82, 73, 68, 71, 69, 95, 83, 87, 69, 69, 80];

/// A sweep pays everything, minus the fee, to one destination.
pub const SWEEP_OUTPUT_COUNT: u64 = 1;

/// Why a sweep cannot be planned, or is not the planned one.
#[derive(Debug, PartialEq, Eq)]
pub enum SweepError {
    NothingToSweep,
    FeeExceedsValue { total: u64, fee: u64 },
    ResultIsDust { swept: u64, dust: u64 },
    TooManyInputs { needed: usize, max: usize },
    DestinationIsSource,
    InputCountMismatch { expected: usize, found: usize },
    InputMismatch { index: usize, expected: String, found: String },
    NotSingleOutput(usize),
    WrongDestination { expected_hex: String, found_hex: String },
    WrongAmount { expected: u64, found: u64 },
    AlreadySigned(usize),
}

impl SweepError {
    /// What an operator reads.
    pub open spec fn text(self) -> Seq<char> {
        match self {
            SweepError::NothingToSweep =>
                "the vault holds no spendable outputs at the required confirmation depth"@,
            SweepError::FeeExceedsValue { total, fee } => "total vault value "@ + decimal(
                total as nat,
            ) + " does not cover the "@ + decimal(fee as nat) + " fee"@,
            SweepError::ResultIsDust { swept, dust } => "sweeping "@ + decimal(swept as nat)
                + " would leave a dust output below the "@ + decimal(dust as nat)
                + " threshold"@,
            SweepError::TooManyInputs { needed, max } => "the sweep would need "@ + decimal(
                needed as nat,
            ) + " inputs, more than the "@ + decimal(max as nat) + " cap"@,
            SweepError::DestinationIsSource =>
                "the destination is the vault being swept — a sweep must move funds elsewhere"@,
            SweepError::InputCountMismatch { expected, found } =>
                "the proposed transaction has "@ + decimal(found as nat)
                    + " inputs, the plan has "@ + decimal(expected as nat),
            SweepError::InputMismatch { index, expected, found } => "proposed input "@ + decimal(
                index as nat,
            ) + " is "@ + found@ + ", the plan has "@ + expected@,
            SweepError::NotSingleOutput(n) => "the proposed transaction has "@ + decimal(n as nat)
                + " outputs; a sweep has exactly one"@,
            SweepError::WrongDestination { expected_hex, found_hex } => "the sweep pays "@
                + found_hex@ + ", not the planned destination "@ + expected_hex@,
            SweepError::WrongAmount { expected, found } => "the sweep pays "@ + decimal(
                found as nat,
            ) + ", the plan pays "@ + decimal(expected as nat),
            SweepError::AlreadySigned(i) =>
                "the proposed transaction is already signed: input "@ + decimal(i as nat)
                    + " carries a scriptSig"@,
        }
    }

    /// What an operator reads.
    pub fn message(&self) -> (m: String)
        ensures
            m@ == self.text(),
    {
        match self {
            SweepError::NothingToSweep => String::from_str(
                "the vault holds no spendable outputs at the required confirmation depth",
            ),
            SweepError::FeeExceedsValue { total, fee } => {
                let mut m: String = String::from_str("total vault value ");
                push_decimal(&mut m, *total);
                m.append(" does not cover the ");
                push_decimal(&mut m, *fee);
                m.append(" fee");
                m
            },
            SweepError::ResultIsDust { swept, dust } => {
                let mut m: String = String::from_str("sweeping ");
                push_decimal(&mut m, *swept);
                m.append(" would leave a dust output below the ");
                push_decimal(&mut m, *dust);
                m.append(" threshold");
                m
            },
            SweepError::TooManyInputs { needed, max } => {
                let mut m: String = String::from_str("the sweep would need ");
                push_decimal(&mut m, *needed as u64);
                m.append(" inputs, more than the ");
                push_decimal(&mut m, *max as u64);
                m.append(" cap");
                m
            },
            SweepError::DestinationIsSource => String::from_str(
                "the destination is the vault being swept — a sweep must move funds elsewhere",
            ),
            SweepError::InputCountMismatch { expected, found } => {
                let mut m: String = String::from_str("the proposed transaction has ");
                push_decimal(&mut m, *found as u64);
                m.append(" inputs, the plan has ");
                push_decimal(&mut m, *expected as u64);
                m
            },
            SweepError::InputMismatch { index, expected, found } => {
                let mut m: String = String::from_str("proposed input ");
                push_decimal(&mut m, *index as u64);
                m.append(" is ");
                m.append(found.as_str());
                m.append(", the plan has ");
                m.append(expected.as_str());
                m
            },
            SweepError::NotSingleOutput(n) => {
                let mut m: String = String::from_str("the proposed transaction has ");
                push_decimal(&mut m, *n as u64);
                m.append(" outputs; a sweep has exactly one");
                m
            },
            SweepError::WrongDestination { expected_hex, found_hex } => {
                let mut m: String = String::from_str("the sweep pays ");
                m.append(found_hex.as_str());
                m.append(", not the planned destination ");
                m.append(expected_hex.as_str());
                m
            },
            SweepError::WrongAmount { expected, found } => {
                let mut m: String = String::from_str("the sweep pays ");
                push_decimal(&mut m, *found);
                m.append(", the plan pays ");
                push_decimal(&mut m, *expected);
                m
            },
            SweepError::AlreadySigned(i) => {
                let mut m: String = String::from_str(
                    "the proposed transaction is already signed: input ",
                );
                push_decimal(&mut m, *i as u64);
                m.append(" carries a scriptSig");
                m
            },
        }
    }
}

/// A fully specified sweep: every field a signer must agree with before it
/// contributes a signature.
#[derive(Debug, PartialEq, Eq)]
pub struct SweepPlan {
    /// The vault being emptied, as its P2SH script hash.
    pub source_hash160: [u8; 20],
    pub dest_hash160: [u8; 20],
    /// The exact `scriptPubKey` the single output must carry. Supplied rather
    /// than derived: a destination may be P2SH or P2PKH.
    pub dest_script_pubkey: Vec<u8>,
    pub dest_address: String,
    pub fee_atomic: u64,
    /// What the destination receives: total input value minus fee.
    pub swept_atomic: u64,
    /// Every input, in the order it appears in the transaction.
    pub inputs: Vec<VaultUtxo>,
}

impl Clone for SweepPlan {
    fn clone(&self) -> (copy: Self)
        ensures
            copy.source_hash160 == self.source_hash160,
            copy.dest_hash160 == self.dest_hash160,
            copy.dest_script_pubkey@ == self.dest_script_pubkey@,
            copy.dest_address == self.dest_address,
            copy.fee_atomic == self.fee_atomic,
            copy.swept_atomic == self.swept_atomic,
            copy.inputs@ == self.inputs@,
    {
        let mut script: Vec<u8> = Vec::new();
        push_all(&mut script, self.dest_script_pubkey.as_slice());
        assert(script@ =~= self.dest_script_pubkey@);
        SweepPlan {
            source_hash160: self.source_hash160,
            dest_hash160: self.dest_hash160,
            dest_script_pubkey: script,
            dest_address: self.dest_address.clone(),
            fee_atomic: self.fee_atomic,
            swept_atomic: self.swept_atomic,
            inputs: copy_utxos(self.inputs.as_slice()),
        }
    }
}

/// One input in the canonical form: txid in display order, output index,
/// value.
pub open spec fn intent_input(utxo: VaultUtxo) -> Seq<u8> {
    utxo.txid@ + le_bytes(twos_complement64(utxo.vout), 4) + le_bytes(utxo.amount_atomic as nat, 8)
}

/// The inputs in the canonical form, one after another.
pub open spec fn intent_inputs(inputs: Seq<VaultUtxo>) -> Seq<u8>
    decreases inputs.len(),
{
    if inputs.len() == 0 {
        Seq::empty()
    } else {
        intent_inputs(inputs.drop_last()) + intent_input(inputs.last())
    }
}

/// Everything of the canonical form that comes before the inputs' values.
pub open spec fn intent_header(
    protocol_version: u8,
    source_hash160: Seq<u8>,
    dest_hash160: Seq<u8>,
    dest_script: Seq<u8>,
    fee: u64,
    swept: u64,
    num_inputs: nat,
) -> Seq<u8> {
    SWEEP_DOMAIN_TAG@ + seq![protocol_version] + source_hash160 + dest_hash160 + le_bytes(
        dest_script.len(),
        2,
    ) + dest_script + le_bytes(fee as nat, 8) + le_bytes(swept as nat, 8) + le_bytes(num_inputs, 4)
}

impl SweepPlan {
    /// The canonical bytes of a sweep: tag, version, source, destination,
    /// script length and script, fee, swept amount, input count, inputs.
    pub open spec fn intent(self, protocol_version: u8) -> Seq<u8> {
        intent_header(
            protocol_version,
            self.source_hash160@,
            self.dest_hash160@,
            self.dest_script_pubkey@,
            self.fee_atomic,
            self.swept_atomic,
            self.inputs@.len(),
        ) + intent_inputs(self.inputs@)
    }

    /// What the inputs are worth together.
    pub fn total_in(&self) -> (total: u64)
        requires
            total_value(self.inputs@) <= u64::MAX,
        ensures
            total == total_value(self.inputs@),
    {
        sum_values(self.inputs.as_slice())
    }

    /// The canonical bytes an operator approves and every signer recomputes.
    ///
    /// They commit to what the sweep means (this vault, this destination, this
    /// fee, these exact outpoints and amounts), so a signer recomputes them
    /// from its own view instead of hashing bytes it was handed.
    pub fn canonical_intent(&self, protocol_version: u8) -> (out: Vec<u8>)
        ensures
            out@ == self.intent(protocol_version),
    {
        let mut out: Vec<u8> = Vec::new();
        push_all(&mut out, &SWEEP_DOMAIN_TAG);
        assert(out@ =~= SWEEP_DOMAIN_TAG@);
        out.push(protocol_version);
        assert(out@ =~= SWEEP_DOMAIN_TAG@ + seq![protocol_version]);
        push_all(&mut out, &self.source_hash160);
        push_all(&mut out, &self.dest_hash160);
        push_le(&mut out, self.dest_script_pubkey.len() as u64, 2);
        push_all(&mut out, self.dest_script_pubkey.as_slice());
        push_le(&mut out, self.fee_atomic, 8);
        push_le(&mut out, self.swept_atomic, 8);
        push_le(&mut out, self.inputs.len() as u64, 4);
        let ghost header = out@;
        let mut i: usize = 0;
        assert(header + intent_inputs(self.inputs@.take(0)) =~= header);
        while i < self.inputs.len()
            invariant
                i <= self.inputs@.len(),
                out@ == header + intent_inputs(self.inputs@.take(i as int)),
            decreases self.inputs@.len() - i,
        {
            let ghost before = out@;
            push_all(&mut out, &self.inputs[i].txid);
            push_le(&mut out, to_bits64(self.inputs[i].vout), 4);
            push_le(&mut out, self.inputs[i].amount_atomic, 8);
            i = i + 1;
            proof {
                let taken = self.inputs@.take(i as int);
                assert(taken.drop_last() =~= self.inputs@.take(i - 1));
                assert(out@ =~= before + intent_input(self.inputs@[i - 1]));
                assert(out@ =~= header + intent_inputs(taken));
            }
        }
        assert(self.inputs@.take(self.inputs@.len() as int) =~= self.inputs@);
        out
    }

    /// The 32-byte commitment an operator stages and a signer compares.
    pub fn commitment(&self, protocol_version: u8) -> (digest: [u8; 32])
        ensures
            digest@ == sha256(self.intent(protocol_version)),
    {
        let intent: Vec<u8> = self.canonical_intent(protocol_version);
        sha256_digest(intent.as_slice())
    }
}

/// Where a sweep sends the vault.
#[derive(Debug, PartialEq, Eq)]
pub struct SweepDestination {
    pub hash160: [u8; 20],
    pub script_pubkey: Vec<u8>,
    pub address: String,
}

impl SweepDestination {
    /// A P2SH destination — a new multisig vault.
    pub fn p2sh(hash160: [u8; 20], address: String) -> (dest: Self)
        ensures
            dest.hash160 == hash160,
            dest.script_pubkey@ == p2sh_script(hash160@),
            dest.address == address,
    {
        SweepDestination { script_pubkey: p2sh_script_pubkey(&hash160), hash160, address }
    }
}

/// `OP_HASH160`, a push of the hash, `OP_EQUAL`.
pub open spec fn p2sh_script(hash160: Seq<u8>) -> Seq<u8> {
    seq![0xa9u8, 0x14u8] + hash160 + seq![0x87u8]
}

/// The fee of a sweep of some outputs.
pub open spec fn sweep_fee(num_inputs: nat, rate: nat, input_bytes: nat) -> nat {
    fee(num_inputs, SWEEP_OUTPUT_COUNT as nat, rate, input_bytes)
}

/// Whether the numbers of a sweep of some outputs fit: what they are worth
/// together, and the size of the transaction.
pub open spec fn sweep_fits(utxos: Seq<VaultUtxo>, input_bytes: nat) -> bool {
    &&& total_value(utxos) <= u64::MAX
    &&& tx_size(utxos.len(), SWEEP_OUTPUT_COUNT as nat, input_bytes) <= u64::MAX
}

/// Whether a result is the sweep of **every** output to a destination, or the
/// first reason against it.
pub open spec fn plans(
    source_hash160: Seq<u8>,
    dest_hash160: Seq<u8>,
    dest_script: Seq<u8>,
    dest_address: Seq<char>,
    utxos: Seq<VaultUtxo>,
    fee_rate_per_kb: u64,
    dust_threshold_atomic: u64,
    max_inputs: usize,
    input_bytes: nat,
    result: Result<SweepPlan, SweepError>,
) -> bool {
    let total = total_value(utxos);
    let fee = sweep_fee(utxos.len(), fee_rate_per_kb as nat, input_bytes);
    if utxos.len() == 0 {
        result == Err::<SweepPlan, _>(SweepError::NothingToSweep)
    } else if dest_hash160 == source_hash160 {
        result == Err::<SweepPlan, _>(SweepError::DestinationIsSource)
    } else if utxos.len() > max_inputs {
        result == Err::<SweepPlan, _>(
            SweepError::TooManyInputs { needed: utxos.len() as usize, max: max_inputs },
        )
    } else if total <= fee {
        result == Err::<SweepPlan, _>(
            SweepError::FeeExceedsValue { total: total as u64, fee: saturate(fee) as u64 },
        )
    } else if total - fee < dust_threshold_atomic {
        result == Err::<SweepPlan, _>(
            SweepError::ResultIsDust { swept: (total - fee) as u64, dust: dust_threshold_atomic },
        )
    } else {
        &&& result matches Ok(plan)
        &&& plan.source_hash160@ == source_hash160
        &&& plan.dest_hash160@ == dest_hash160
        &&& plan.dest_script_pubkey@ == dest_script
        &&& plan.dest_address@ == dest_address
        &&& plan.fee_atomic == fee
        &&& plan.swept_atomic == total - fee
        &&& plan.inputs@ == utxos
        &&& plan.swept_atomic + plan.fee_atomic == total_value(plan.inputs@)
    }
}

/// Builds a sweep of **every** supplied output, in the order given.
pub fn plan_sweep(
    source_hash160: [u8; 20],
    dest: SweepDestination,
    utxos: &[VaultUtxo],
    fee_rate_per_kb: u64,
    dust_threshold_atomic: u64,
    max_inputs: usize,
    input_bytes: u64,
) -> (result: Result<SweepPlan, SweepError>)
    requires
        utxos@.len() <= max_inputs && dest.hash160@ != source_hash160@ ==> sweep_fits(
            utxos@,
            input_bytes as nat,
        ),
    ensures
        plans(
            source_hash160@,
            dest.hash160@,
            dest.script_pubkey@,
            dest.address@,
            utxos@,
            fee_rate_per_kb,
            dust_threshold_atomic,
            max_inputs,
            input_bytes as nat,
            result,
        ),
{
    if utxos.len() == 0 {
        return Err(SweepError::NothingToSweep);
    }
    if same_bytes(&dest.hash160, &source_hash160) {
        // Sweeping a vault to itself returns the funds to the same possibly
        // compromised key, having paid a fee for it.
        return Err(SweepError::DestinationIsSource);
    }
    if utxos.len() > max_inputs {
        return Err(SweepError::TooManyInputs { needed: utxos.len(), max: max_inputs });
    }
    let total: u64 = sum_values(utxos);
    let fee: u64 = fee_for(utxos.len() as u64, SWEEP_OUTPUT_COUNT, fee_rate_per_kb, input_bytes);
    if total <= fee {
        return Err(SweepError::FeeExceedsValue { total, fee });
    }
    let swept: u64 = total - fee;
    if swept < dust_threshold_atomic {
        return Err(SweepError::ResultIsDust { swept, dust: dust_threshold_atomic });
    }
    Ok(
        SweepPlan {
            source_hash160,
            dest_hash160: dest.hash160,
            dest_script_pubkey: dest.script_pubkey,
            dest_address: dest.address,
            fee_atomic: fee,
            swept_atomic: swept,
            inputs: copy_utxos(utxos),
        },
    )
}

/// The name of an outpoint: txid in display order, a colon, the output index.
pub open spec fn outpoint_text(txid_hex: Seq<char>, vout: int) -> Seq<char> {
    txid_hex + ":"@ + decimal_int(vout)
}

/// Whether a transaction input spends a vault output. The transaction carries
/// the txid in internal order, the row in display order.
pub open spec fn spends_outpoint(input: TxInput, utxo: VaultUtxo) -> bool {
    input.prev_txid@ == utxo.txid@.reverse() && input.prev_vout as int == utxo.vout as int
}

/// Whether a transaction input is the unsigned spend of a planned output.
pub open spec fn unsigned_spend(input: TxInput, utxo: VaultUtxo) -> bool {
    input.script_sig@.len() == 0 && spends_outpoint(input, utxo)
}

/// Whether the first `n` inputs are the planned ones.
pub open spec fn inputs_match(tx: Transaction, plan: SweepPlan, n: int) -> bool {
    &&& tx.inputs@.len() == plan.inputs@.len()
    &&& 0 <= n <= tx.inputs@.len()
    &&& forall|i: int| 0 <= i < n ==> unsigned_spend(#[trigger] tx.inputs@[i], plan.inputs@[i])
}

/// Whether an unsigned transaction is exactly the planned sweep.
pub open spec fn realises(tx: Transaction, plan: SweepPlan) -> bool {
    &&& inputs_match(tx, plan, tx.inputs@.len() as int)
    &&& tx.outputs@.len() == 1
    &&& tx.outputs@[0].script_pubkey@ == plan.dest_script_pubkey@
    &&& tx.outputs@[0].value == plan.swept_atomic
}

/// The first way in which a transaction departs from the plan.
pub open spec fn departs(tx: Transaction, plan: SweepPlan, e: SweepError) -> bool {
    match e {
        SweepError::InputCountMismatch { expected, found } => {
            &&& tx.inputs@.len() != plan.inputs@.len()
            &&& expected == plan.inputs@.len()
            &&& found == tx.inputs@.len()
        },
        SweepError::AlreadySigned(i) => {
            &&& inputs_match(tx, plan, i as int)
            &&& i < tx.inputs@.len()
            &&& tx.inputs@[i as int].script_sig@.len() != 0
        },
        SweepError::InputMismatch { index, expected, found } => {
            &&& inputs_match(tx, plan, index as int)
            &&& index < tx.inputs@.len()
            &&& tx.inputs@[index as int].script_sig@.len() == 0
            &&& !spends_outpoint(tx.inputs@[index as int], plan.inputs@[index as int])
            &&& expected@ == outpoint_text(
                plan.inputs@[index as int].txid_hex@,
                plan.inputs@[index as int].vout as int,
            )
            &&& found@ == outpoint_text(
                hex::hex_text(tx.inputs@[index as int].prev_txid@.reverse()),
                tx.inputs@[index as int].prev_vout as int,
            )
        },
        SweepError::NotSingleOutput(n) => {
            &&& inputs_match(tx, plan, tx.inputs@.len() as int)
            &&& tx.outputs@.len() == n
            &&& n != 1
        },
        SweepError::WrongDestination { expected_hex, found_hex } => {
            &&& inputs_match(tx, plan, tx.inputs@.len() as int)
            &&& tx.outputs@.len() == 1
            &&& tx.outputs@[0].script_pubkey@ != plan.dest_script_pubkey@
            &&& expected_hex@ == hex::hex_text(plan.dest_script_pubkey@)
            &&& found_hex@ == hex::hex_text(tx.outputs@[0].script_pubkey@)
        },
        SweepError::WrongAmount { expected, found } => {
            &&& inputs_match(tx, plan, tx.inputs@.len() as int)
            &&& tx.outputs@.len() == 1
            &&& tx.outputs@[0].script_pubkey@ == plan.dest_script_pubkey@
            &&& tx.outputs@[0].value != plan.swept_atomic
            &&& expected == plan.swept_atomic
            &&& found == tx.outputs@[0].value
        },
        _ => false,
    }
}

/// The text of an outpoint.
pub fn outpoint_name(txid_hex: &str, vout: i64) -> (text: String)
    ensures
        text@ == outpoint_text(txid_hex@, vout as int),
{
    let mut text: String = String::from_str(txid_hex);
    text.append(":");
    push_decimal_int(&mut text, vout);
    text
}

/// Verifies that a proposed unsigned transaction realises exactly `plan`.
///
/// Every signer runs this over the bytes it is asked to sign. The commitment
/// proves that the operator approved this plan; this proves that the
/// transaction is that plan.
pub fn verify_sweep_tx(tx: &Transaction, plan: &SweepPlan) -> (result: Result<(), SweepError>)
    ensures
        match result {
            Ok(_) => realises(*tx, *plan),
            Err(e) => departs(*tx, *plan, e),
        },
{
    if tx.inputs.len() != plan.inputs.len() {
        return Err(
            SweepError::InputCountMismatch { expected: plan.inputs.len(), found: tx.inputs.len() },
        );
    }
    let mut i: usize = 0;
    while i < tx.inputs.len()
        invariant
            i <= tx.inputs@.len(),
            inputs_match(*tx, *plan, i as int),
        decreases tx.inputs@.len() - i,
    {
        let got: &TxInput = &tx.inputs[i];
        let want: &VaultUtxo = &plan.inputs[i];
        // An unsigned transaction carries empty scriptSigs.
        if got.script_sig.len() != 0 {
            return Err(SweepError::AlreadySigned(i));
        }
        if !same_bytes(&got.prev_txid, &internal_txid(&want.txid))
            || got.prev_vout as i64 != want.vout {
            let found_txid: String = hex::encode(&internal_txid(&got.prev_txid));
            return Err(
                SweepError::InputMismatch {
                    index: i,
                    expected: outpoint_name(want.txid_hex.as_str(), want.vout),
                    found: outpoint_name(found_txid.as_str(), got.prev_vout as i64),
                },
            );
        }
        i = i + 1;
    }
    if tx.outputs.len() != 1 {
        // A second output would send part of the vault somewhere the plan does
        // not describe.
        return Err(SweepError::NotSingleOutput(tx.outputs.len()));
    }
    if !same_bytes(tx.outputs[0].script_pubkey.as_slice(), plan.dest_script_pubkey.as_slice()) {
        return Err(
            SweepError::WrongDestination {
                expected_hex: hex::encode(plan.dest_script_pubkey.as_slice()),
                found_hex: hex::encode(tx.outputs[0].script_pubkey.as_slice()),
            },
        );
    }
    if tx.outputs[0].value != plan.swept_atomic {
        return Err(
            SweepError::WrongAmount { expected: plan.swept_atomic, found: tx.outputs[0].value },
        );
    }
    Ok(())
}

/// A stored (display-order) txid as it appears inside a transaction.
///
/// An input's previous txid is serialized in internal order, which is the byte
/// reversal of the hex a node displays. The two must be converted, never
/// compared directly.
pub fn internal_txid(display_order: &[u8; 32]) -> (internal: [u8; 32])
    ensures
        internal@ == display_order@.reverse(),
{
    let mut internal: [u8; 32] = [0u8; 32];
    let mut i: usize = 0;
    while i < 32
        invariant
            i <= 32,
            forall|j: int| 0 <= j < i ==> internal@[j] == display_order@[31 - j],
        decreases 32 - i,
    {
        internal[i] = display_order[31 - i];
        i = i + 1;
    }
    assert(internal@ =~= display_order@.reverse());
    internal
}

/// The `scriptPubKey` for a P2SH destination.
pub fn p2sh_script_pubkey(hash160: &[u8; 20]) -> (script: Vec<u8>)
    ensures
        script@ == p2sh_script(hash160@),
{
    let mut script: Vec<u8> = Vec::new();
    script.push(0xa9);
    script.push(0x14);
    push_all(&mut script, hash160);
    script.push(0x87);
    assert(script@ =~= p2sh_script(hash160@));
    script
}

/// Reversing a txid twice gives it back.
pub proof fn internal_txid_is_its_own_inverse(txid: Seq<u8>)
    ensures
        txid.reverse().reverse() == txid,
{
    assert(txid.reverse().reverse() =~= txid);
}

/// A transaction that realises a plan carries the planned outpoints in the
/// planned order and pays the planned destination: two plans that one
/// transaction realises agree on all of these.
pub proof fn a_transaction_realises_one_sweep(tx: Transaction, a: SweepPlan, b: SweepPlan)
    requires
        realises(tx, a),
        realises(tx, b),
    ensures
        a.dest_script_pubkey@ == b.dest_script_pubkey@,
        a.swept_atomic == b.swept_atomic,
        a.inputs@.len() == b.inputs@.len(),
        forall|i: int|
            0 <= i < a.inputs@.len() ==> (#[trigger] a.inputs@[i]).txid@ == b.inputs@[i].txid@
                && a.inputs@[i].vout == b.inputs@[i].vout,
{
    assert forall|i: int| 0 <= i < a.inputs@.len() implies (#[trigger] a.inputs@[i]).txid@
        == b.inputs@[i].txid@ && a.inputs@[i].vout == b.inputs@[i].vout by {
        assert(unsigned_spend(tx.inputs@[i], a.inputs@[i]));
        assert(unsigned_spend(tx.inputs@[i], b.inputs@[i]));
        internal_txid_is_its_own_inverse(a.inputs@[i].txid@);
        internal_txid_is_its_own_inverse(b.inputs@[i].txid@);
    }
}

/// Whether the lengths and indices of a plan fit their fields in the canonical
/// form.
pub open spec fn fits_intent(plan: SweepPlan) -> bool {
    &&& plan.dest_script_pubkey@.len() < 0x1_0000
    &&& plan.inputs@.len() < 0x1_0000_0000
    &&& forall|i: int|
        0 <= i < plan.inputs@.len() ==> 0 <= (#[trigger] plan.inputs@[i]).vout < 0x1_0000_0000
}

proof fn lemma_intent_inputs_len(inputs: Seq<VaultUtxo>)
    ensures
        intent_inputs(inputs).len() == 44 * inputs.len(),
    decreases inputs.len(),
{
    if inputs.len() > 0 {
        lemma_intent_inputs_len(inputs.drop_last());
        lemma_le_bytes_len(twos_complement64(inputs.last().vout), 4);
        lemma_le_bytes_len(inputs.last().amount_atomic as nat, 8);
    }
}

proof fn lemma_intent_inputs_injective(a: Seq<VaultUtxo>, b: Seq<VaultUtxo>)
    requires
        a.len() == b.len(),
        intent_inputs(a) == intent_inputs(b),
        forall|i: int| 0 <= i < a.len() ==> 0 <= (#[trigger] a[i]).vout < 0x1_0000_0000,
        forall|i: int| 0 <= i < b.len() ==> 0 <= (#[trigger] b[i]).vout < 0x1_0000_0000,
    ensures
        forall|i: int|
            0 <= i < a.len() ==> {
                &&& (#[trigger] a[i]).txid@ == b[i].txid@
                &&& a[i].vout == b[i].vout
                &&& a[i].amount_atomic == b[i].amount_atomic
            },
    decreases a.len(),
{
    if a.len() > 0 {
        let x = a.last();
        let y = b.last();
        lemma_intent_inputs_len(a.drop_last());
        lemma_intent_inputs_len(b.drop_last());
        lemma_split_equal(
            intent_inputs(a.drop_last()),
            intent_input(x),
            intent_inputs(b.drop_last()),
            intent_input(y),
        );
        lemma_le_bytes_len(twos_complement64(x.vout), 4);
        lemma_le_bytes_len(twos_complement64(y.vout), 4);
        lemma_le_bytes_len(x.amount_atomic as nat, 8);
        lemma_le_bytes_len(y.amount_atomic as nat, 8);
        lemma_split_equal(
            x.txid@ + le_bytes(twos_complement64(x.vout), 4),
            le_bytes(x.amount_atomic as nat, 8),
            y.txid@ + le_bytes(twos_complement64(y.vout), 4),
            le_bytes(y.amount_atomic as nat, 8),
        );
        lemma_split_equal(
            x.txid@,
            le_bytes(twos_complement64(x.vout), 4),
            y.txid@,
            le_bytes(twos_complement64(y.vout), 4),
        );
        lemma_pow256();
        assert(a[a.len() - 1] == x && b[b.len() - 1] == y);
        lemma_le_bytes_injective(twos_complement64(x.vout), twos_complement64(y.vout), 4);
        lemma_le_bytes_injective(x.amount_atomic as nat, y.amount_atomic as nat, 8);
        assert forall|i: int| 0 <= i < a.drop_last().len() implies 0 <= (
        #[trigger] a.drop_last()[i]).vout < 0x1_0000_0000 by {
            assert(a[i] == a.drop_last()[i]);
        }
        assert forall|i: int| 0 <= i < b.drop_last().len() implies 0 <= (
        #[trigger] b.drop_last()[i]).vout < 0x1_0000_0000 by {
            assert(b[i] == b.drop_last()[i]);
        }
        lemma_intent_inputs_injective(a.drop_last(), b.drop_last());
        assert forall|i: int| 0 <= i < a.len() implies {
            &&& (#[trigger] a[i]).txid@ == b[i].txid@
            &&& a[i].vout == b[i].vout
            &&& a[i].amount_atomic == b[i].amount_atomic
        } by {
            if i < a.len() - 1 {
                assert(a.drop_last()[i] == a[i]);
                assert(b.drop_last()[i] == b[i]);
            }
        }
    }
}

/// The canonical bytes commit to every field: equal bytes mean the same
/// protocol version, source, destination, script, fee, swept amount, and the
/// same outpoints and amounts in the same order.
pub proof fn intent_commits_to_every_field(a: SweepPlan, version_a: u8, b: SweepPlan, version_b: u8)
    requires
        fits_intent(a),
        fits_intent(b),
        a.intent(version_a) == b.intent(version_b),
    ensures
        version_a == version_b,
        a.source_hash160@ == b.source_hash160@,
        a.dest_hash160@ == b.dest_hash160@,
        a.dest_script_pubkey@ == b.dest_script_pubkey@,
        a.fee_atomic == b.fee_atomic,
        a.swept_atomic == b.swept_atomic,
        a.inputs@.len() == b.inputs@.len(),
        forall|i: int|
            0 <= i < a.inputs@.len() ==> {
                &&& (#[trigger] a.inputs@[i]).txid@ == b.inputs@[i].txid@
                &&& a.inputs@[i].vout == b.inputs@[i].vout
                &&& a.inputs@[i].amount_atomic == b.inputs@[i].amount_atomic
            },
{
    lemma_pow256();
    let tag = SWEEP_DOMAIN_TAG@;
    let sa = a.dest_script_pubkey@;
    let sb = b.dest_script_pubkey@;
    let ta = intent_inputs(a.inputs@);
    let tb = intent_inputs(b.inputs@);
    let na = le_bytes(a.inputs@.len(), 4);
    let nb = le_bytes(b.inputs@.len(), 4);
    let wa = le_bytes(a.swept_atomic as nat, 8);
    let wb = le_bytes(b.swept_atomic as nat, 8);
    let fa = le_bytes(a.fee_atomic as nat, 8);
    let fb = le_bytes(b.fee_atomic as nat, 8);
    let la = le_bytes(sa.len(), 2);
    let lb = le_bytes(sb.len(), 2);
    lemma_le_bytes_len(a.inputs@.len(), 4);
    lemma_le_bytes_len(b.inputs@.len(), 4);
    lemma_le_bytes_len(a.swept_atomic as nat, 8);
    lemma_le_bytes_len(b.swept_atomic as nat, 8);
    lemma_le_bytes_len(a.fee_atomic as nat, 8);
    lemma_le_bytes_len(b.fee_atomic as nat, 8);
    lemma_le_bytes_len(sa.len(), 2);
    lemma_le_bytes_len(sb.len(), 2);

    let head_a = tag + seq![version_a] + a.source_hash160@ + a.dest_hash160@ + la;
    let head_b = tag + seq![version_b] + b.source_hash160@ + b.dest_hash160@ + lb;
    let rest_a = sa + fa + wa + na + ta;
    let rest_b = sb + fb + wb + nb + tb;
    assert(a.intent(version_a) =~= head_a + rest_a);
    assert(b.intent(version_b) =~= head_b + rest_b);
    lemma_split_equal(head_a, rest_a, head_b, rest_b);
    lemma_split_equal(
        tag + seq![version_a] + a.source_hash160@ + a.dest_hash160@,
        la,
        tag + seq![version_b] + b.source_hash160@ + b.dest_hash160@,
        lb,
    );
    lemma_split_equal(
        tag + seq![version_a] + a.source_hash160@,
        a.dest_hash160@,
        tag + seq![version_b] + b.source_hash160@,
        b.dest_hash160@,
    );
    lemma_split_equal(
        tag + seq![version_a],
        a.source_hash160@,
        tag + seq![version_b],
        b.source_hash160@,
    );
    lemma_split_equal(tag, seq![version_a], tag, seq![version_b]);
    assert(seq![version_a][0] == seq![version_b][0]);
    lemma_le_bytes_injective(sa.len(), sb.len(), 2);

    assert(rest_a =~= sa + (fa + wa + na + ta));
    assert(rest_b =~= sb + (fb + wb + nb + tb));
    lemma_split_equal(sa, fa + wa + na + ta, sb, fb + wb + nb + tb);
    assert(fa + wa + na + ta =~= fa + (wa + (na + ta)));
    assert(fb + wb + nb + tb =~= fb + (wb + (nb + tb)));
    lemma_split_equal(fa, wa + (na + ta), fb, wb + (nb + tb));
    lemma_split_equal(wa, na + ta, wb, nb + tb);
    lemma_split_equal(na, ta, nb, tb);
    lemma_le_bytes_injective(a.fee_atomic as nat, b.fee_atomic as nat, 8);
    lemma_le_bytes_injective(a.swept_atomic as nat, b.swept_atomic as nat, 8);
    lemma_le_bytes_injective(a.inputs@.len(), b.inputs@.len(), 4);
    lemma_intent_inputs_injective(a.inputs@, b.inputs@);
}

/// The canonical bytes start with the sweep's own tag.
pub proof fn intent_is_domain_separated(plan: SweepPlan, protocol_version: u8)
    ensures
        SWEEP_DOMAIN_TAG@ == plan.intent(protocol_version).take(16),
{
    assert(SWEEP_DOMAIN_TAG@ =~= plan.intent(protocol_version).take(16));
}

/// A sweep is planned exactly where there is something to sweep, it goes
/// somewhere else, it is within the cap on inputs, and what is left after the fee
/// is worth something and no dust. It then spends every output it was given, in
/// their order, and everything but the fee of its own size goes to the
/// destination.
pub proof fn a_sweep_moves_everything_but_its_fee(
    source_hash160: Seq<u8>,
    dest_hash160: Seq<u8>,
    dest_script: Seq<u8>,
    dest_address: Seq<char>,
    utxos: Seq<VaultUtxo>,
    fee_rate_per_kb: u64,
    dust_threshold_atomic: u64,
    max_inputs: usize,
    input_bytes: nat,
    result: Result<SweepPlan, SweepError>,
)
    requires
        plans(
            source_hash160,
            dest_hash160,
            dest_script,
            dest_address,
            utxos,
            fee_rate_per_kb,
            dust_threshold_atomic,
            max_inputs,
            input_bytes,
            result,
        ),
        utxos.len() <= usize::MAX,
        total_value(utxos) <= u64::MAX,
    ensures
        ({
            let cost = fee(utxos.len(), 1, fee_rate_per_kb as nat, input_bytes);
            let total = total_value(utxos);
            &&& result is Ok <==> {
                &&& utxos.len() > 0
                &&& dest_hash160 != source_hash160
                &&& utxos.len() <= max_inputs
                &&& total > cost
                &&& total >= cost + dust_threshold_atomic
            }
            &&& (result matches Ok(plan) ==> {
                &&& plan.inputs@ == utxos
                &&& plan.fee_atomic == cost
                &&& plan.swept_atomic + cost == total
                &&& plan.swept_atomic > 0
                &&& plan.source_hash160@ == source_hash160
                &&& plan.dest_hash160@ == dest_hash160
                &&& plan.dest_script_pubkey@ == dest_script
                &&& plan.dest_address@ == dest_address
            })
            &&& (result matches Err(SweepError::NothingToSweep)) <==> utxos.len() == 0
            &&& (result matches Err(SweepError::DestinationIsSource)) <==> utxos.len() > 0
                && dest_hash160 == source_hash160
            &&& (result matches Err(SweepError::TooManyInputs { needed, max }) ==> needed
                == utxos.len() && max == max_inputs && needed > max)
            &&& (result matches Err(SweepError::FeeExceedsValue { total: t, fee: f }) ==> t == total
                && total <= cost && (f == cost || (f == u64::MAX && cost > u64::MAX)))
            &&& (result matches Err(SweepError::ResultIsDust { swept, dust }) ==> swept + cost
                == total && dust == dust_threshold_atomic && swept < dust)
        }),
{
}

/// A transaction is the planned sweep exactly where it spends the planned
/// outputs, each unsigned and at its place, and pays the planned amount to the
/// planned script and to nothing else. A reason against it is given only where
/// it is not.
pub proof fn only_the_planned_transaction_is_the_sweep(
    tx: Transaction,
    plan: SweepPlan,
    e: SweepError,
)
    ensures
        realises(tx, plan) <==> {
            &&& tx.inputs@.len() == plan.inputs@.len()
            &&& forall|i: int|
                0 <= i < tx.inputs@.len() ==> {
                    &&& (#[trigger] tx.inputs@[i]).script_sig@.len() == 0
                    &&& tx.inputs@[i].prev_txid@ == plan.inputs@[i].txid@.reverse()
                    &&& tx.inputs@[i].prev_vout == plan.inputs@[i].vout
                }
            &&& tx.outputs@.len() == 1
            &&& tx.outputs@[0].script_pubkey@ == plan.dest_script_pubkey@
            &&& tx.outputs@[0].value == plan.swept_atomic
        },
        departs(tx, plan, e) ==> !realises(tx, plan),
        departs(tx, plan, e) ==> e is InputCountMismatch || e is AlreadySigned || e is InputMismatch
            || e is NotSingleOutput || e is WrongDestination || e is WrongAmount,
        departs(tx, plan, e) ==> (e matches SweepError::WrongAmount { expected, found } ==> expected
            == plan.swept_atomic && found == tx.outputs@[0].value && expected != found),
        departs(tx, plan, e) ==> (e matches SweepError::InputCountMismatch { expected, found }
            ==> expected == plan.inputs@.len() && found == tx.inputs@.len() && expected != found),
        departs(tx, plan, e) ==> (e matches SweepError::AlreadySigned(i) ==> i < tx.inputs@.len()
            && tx.inputs@[i as int].script_sig@.len() > 0),
        departs(tx, plan, e) ==> (e matches SweepError::NotSingleOutput(n) ==> n
            == tx.outputs@.len() && n != 1),
{
    if realises(tx, plan) {
        assert forall|i: int| 0 <= i < tx.inputs@.len() implies {
            &&& (#[trigger] tx.inputs@[i]).script_sig@.len() == 0
            &&& tx.inputs@[i].prev_txid@ == plan.inputs@[i].txid@.reverse()
            &&& tx.inputs@[i].prev_vout == plan.inputs@[i].vout
        } by {
            assert(unsigned_spend(tx.inputs@[i], plan.inputs@[i]));
        }
        if departs(tx, plan, e) {
            match e {
                SweepError::AlreadySigned(i) => {
                    assert(unsigned_spend(tx.inputs@[i as int], plan.inputs@[i as int]));
                },
                SweepError::InputMismatch { index, .. } => {
                    assert(unsigned_spend(tx.inputs@[index as int], plan.inputs@[index as int]));
                },
                _ => {},
            }
        }
    }
}

/// The script that pays a hash is 23 bytes: two in front of the hash, and one
/// behind it.
pub proof fn a_p2sh_script_wraps_its_hash(hash160: Seq<u8>)
    requires
        hash160.len() == 20,
    ensures
        p2sh_script(hash160).len() == 23,
        p2sh_script(hash160)[0] == 0xa9,
        p2sh_script(hash160)[1] == 20,
        p2sh_script(hash160).subrange(2, 22) == hash160,
        p2sh_script(hash160)[22] == 0x87,
{
    assert(p2sh_script(hash160).subrange(2, 22) =~= hash160);
}

/// Where each field is in the canonical bytes: the version behind the tag, then
/// the two hashes, the script behind its length, the fee, the swept amount and
/// the number of inputs, and then 44 bytes for each input.
pub proof fn the_canonical_bytes_have_fixed_places(plan: SweepPlan, version: u8)
    requires
        fits_intent(plan),
    ensures
        ({
            let bytes = plan.intent(version);
            let s = plan.dest_script_pubkey@.len() as int;
            &&& bytes.len() == 79 + s + 44 * plan.inputs@.len()
            &&& bytes[16] == version
            &&& bytes.subrange(17, 37) == plan.source_hash160@
            &&& bytes.subrange(37, 57) == plan.dest_hash160@
            &&& le_value(bytes.subrange(57, 59)) == s
            &&& bytes.subrange(59, 59 + s) == plan.dest_script_pubkey@
            &&& le_value(bytes.subrange(59 + s, 67 + s)) == plan.fee_atomic
            &&& le_value(bytes.subrange(67 + s, 75 + s)) == plan.swept_atomic
            &&& le_value(bytes.subrange(75 + s, 79 + s)) == plan.inputs@.len()
        }),
{
    lemma_pow256();
    let bytes = plan.intent(version);
    let script = plan.dest_script_pubkey@;
    let s = script.len() as int;
    let l = le_bytes(script.len(), 2);
    let f = le_bytes(plan.fee_atomic as nat, 8);
    let w = le_bytes(plan.swept_atomic as nat, 8);
    let n = le_bytes(plan.inputs@.len(), 4);
    lemma_le_bytes_len(script.len(), 2);
    lemma_le_bytes_len(plan.fee_atomic as nat, 8);
    lemma_le_bytes_len(plan.swept_atomic as nat, 8);
    lemma_le_bytes_len(plan.inputs@.len(), 4);
    lemma_le_value_of_le_bytes(script.len(), 2);
    lemma_le_value_of_le_bytes(plan.fee_atomic as nat, 8);
    lemma_le_value_of_le_bytes(plan.swept_atomic as nat, 8);
    lemma_le_value_of_le_bytes(plan.inputs@.len(), 4);
    lemma_intent_inputs_len(plan.inputs@);
    assert(bytes.subrange(17, 37) =~= plan.source_hash160@);
    assert(bytes.subrange(37, 57) =~= plan.dest_hash160@);
    assert(bytes.subrange(57, 59) =~= l);
    assert(bytes.subrange(59, 59 + s) =~= script);
    assert(bytes.subrange(59 + s, 67 + s) =~= f);
    assert(bytes.subrange(67 + s, 75 + s) =~= w);
    assert(bytes.subrange(75 + s, 79 + s) =~= n);
}

/// Each input in the canonical bytes: the transaction id as a node prints it,
/// the position, and the value.
pub proof fn a_canonical_input_has_fixed_places(utxo: VaultUtxo)
    requires
        0 <= utxo.vout < 0x1_0000_0000,
    ensures
        intent_input(utxo).len() == 44,
        intent_input(utxo).subrange(0, 32) == utxo.txid@,
        le_value(intent_input(utxo).subrange(32, 36)) == utxo.vout,
        le_value(intent_input(utxo).subrange(36, 44)) == utxo.amount_atomic,
{
    lemma_pow256();
    let v = le_bytes(twos_complement64(utxo.vout), 4);
    let a = le_bytes(utxo.amount_atomic as nat, 8);
    lemma_le_bytes_len(twos_complement64(utxo.vout), 4);
    lemma_le_bytes_len(utxo.amount_atomic as nat, 8);
    lemma_le_value_of_le_bytes(twos_complement64(utxo.vout), 4);
    lemma_le_value_of_le_bytes(utxo.amount_atomic as nat, 8);
    assert(intent_input(utxo).subrange(0, 32) =~= utxo.txid@);
    assert(intent_input(utxo).subrange(32, 36) =~= v);
    assert(intent_input(utxo).subrange(36, 44) =~= a);
}

/// An output is named by its transaction and its place in it.
pub proof fn an_output_is_named_by_its_place(txid_hex: Seq<char>, vout: int)
    ensures
        outpoint_text(txid_hex, vout).take(txid_hex.len() as int) == txid_hex,
        outpoint_text(txid_hex, vout).skip(txid_hex.len() as int + 1) == decimal_int(vout),
{
    reveal_strlit(":");
    assert(outpoint_text(txid_hex, vout).take(txid_hex.len() as int) =~= txid_hex);
    assert(outpoint_text(txid_hex, vout).skip(txid_hex.len() as int + 1) =~= decimal_int(vout));
}

/// What an operator reads of a sweep that cannot be made, or that is not the
/// planned one, names both sides of the disagreement.
pub proof fn a_refused_sweep_names_both_sides(
    a: u64,
    b: u64,
    m: usize,
    n: usize,
    x: String,
    y: String,
)
    ensures
        ({
            let worthless = SweepError::FeeExceedsValue { total: a, fee: b }.text();
            let dust = SweepError::ResultIsDust { swept: a, dust: b }.text();
            let many = SweepError::TooManyInputs { needed: m, max: n }.text();
            let count = SweepError::InputCountMismatch { expected: n, found: m }.text();
            let amount = SweepError::WrongAmount { expected: b, found: a }.text();
            let place = SweepError::WrongDestination { expected_hex: y, found_hex: x }.text();
            &&& shows(worthless, decimal(a as nat)) && shows(worthless, decimal(b as nat))
            &&& shows(dust, decimal(a as nat)) && shows(dust, decimal(b as nat))
            &&& shows(many, decimal(m as nat)) && shows(many, decimal(n as nat))
            &&& shows(count, decimal(m as nat)) && shows(count, decimal(n as nat))
            &&& shows(amount, decimal(a as nat)) && shows(amount, decimal(b as nat))
            &&& shows(place, x@) && shows(place, y@)
        }),
{
    let da = decimal(a as nat);
    let db = decimal(b as nat);
    let dm = decimal(m as nat);
    let dn = decimal(n as nat);
    lemma_shows_both("total vault value "@, da, " does not cover the "@, db);
    let worthless = "total vault value "@ + da + " does not cover the "@ + db;
    lemma_shows_going_on(worthless, da, " fee"@);
    lemma_shows_going_on(worthless, db, " fee"@);
    lemma_shows_both("sweeping "@, da, " would leave a dust output below the "@, db);
    let dust = "sweeping "@ + da + " would leave a dust output below the "@ + db;
    lemma_shows_going_on(dust, da, " threshold"@);
    lemma_shows_going_on(dust, db, " threshold"@);
    lemma_shows_both("the sweep would need "@, dm, " inputs, more than the "@, dn);
    let many = "the sweep would need "@ + dm + " inputs, more than the "@ + dn;
    lemma_shows_going_on(many, dm, " cap"@);
    lemma_shows_going_on(many, dn, " cap"@);
    lemma_shows_both("the proposed transaction has "@, dm, " inputs, the plan has "@, dn);
    lemma_shows_both("the sweep pays "@, da, ", the plan pays "@, db);
    lemma_shows_both("the sweep pays "@, x@, ", not the planned destination "@, y@);
}

} // verus!
