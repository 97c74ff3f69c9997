//! Planning a sweep, and telling the planned one from any other.

use glc_bridge::glc::hex::encode;
use glc_bridge::glc::withdrawal_db::VaultUtxo;
use glc_bridge::withdrawal::coin::multisig_input_bytes;
use glc_bridge::withdrawal::multisig::{Transaction, TxInput, TxOutput};
use glc_bridge::withdrawal::sweep::{
    internal_txid, p2sh_script_pubkey, plan_sweep, verify_sweep_tx, SweepDestination, SweepError,
    SweepPlan, SWEEP_DOMAIN_TAG,
};

const SRC: [u8; 20] = [0x11; 20];
const DST: [u8; 20] = [0x22; 20];
const RATE: u64 = 10_000;
const DUST: u64 = 5_400;

fn utxo(seed: u8, amount: u64) -> VaultUtxo {
    let mut txid = [seed; 32];
    txid[0] = seed.wrapping_add(1);
    txid[31] = seed.wrapping_add(2);
    VaultUtxo {
        txid,
        txid_hex: encode(&txid),
        vout: 0,
        amount_atomic: amount,
        script_pubkey_hex: encode(&p2sh_script_pubkey(&SRC)),
        confirmations: 10,
    }
}

fn plan(utxos: &[VaultUtxo]) -> SweepPlan {
    plan_sweep(
        SRC,
        SweepDestination::p2sh(DST, "Qdest".into()),
        utxos,
        RATE,
        DUST,
        20,
        multisig_input_bytes(2, 105),
    )
    .expect("plan")
}

fn tx_for(p: &SweepPlan) -> Transaction {
    Transaction {
        version: 1,
        inputs: p
            .inputs
            .iter()
            .map(|u| TxInput {
                prev_txid: internal_txid(&u.txid),
                prev_vout: u.vout as u32,
                script_sig: Vec::new(),
                sequence: 0xffff_ffff,
            })
            .collect(),
        outputs: vec![TxOutput {
            value: p.swept_atomic,
            script_pubkey: p.dest_script_pubkey.clone(),
        }],
        lock_time: 0,
    }
}

#[test]
fn a_sweep_takes_every_output_and_pays_one_destination() {
    let utxos = vec![utxo(1, 500_000), utxo(2, 700_000), utxo(3, 100_000)];
    let p = plan(&utxos);
    assert_eq!(p.inputs.len(), 3, "a sweep leaves nothing behind");
    assert_eq!(p.total_in(), 1_300_000);
    assert_eq!(
        p.swept_atomic + p.fee_atomic,
        p.total_in(),
        "no value goes anywhere but the destination and the fee"
    );
    verify_sweep_tx(&tx_for(&p), &p).expect("the built transaction realises the plan");
}

#[test]
fn sweeping_a_vault_to_itself_is_refused() {
    let err = plan_sweep(
        SRC,
        SweepDestination::p2sh(SRC, "Qsame".into()),
        &[utxo(1, 500_000)],
        RATE,
        DUST,
        20,
        multisig_input_bytes(2, 105),
    )
    .unwrap_err();
    assert_eq!(err, SweepError::DestinationIsSource);
}

#[test]
fn an_empty_vault_cannot_be_swept() {
    let err = plan_sweep(
        SRC,
        SweepDestination::p2sh(DST, "Q".into()),
        &[],
        RATE,
        DUST,
        20,
        multisig_input_bytes(2, 105),
    )
    .unwrap_err();
    assert_eq!(err, SweepError::NothingToSweep);
}

#[test]
fn a_vault_worth_less_than_its_fee_is_refused_rather_than_underflowing() {
    let err = plan_sweep(
        SRC,
        SweepDestination::p2sh(DST, "Q".into()),
        &[utxo(1, 10)],
        RATE,
        DUST,
        20,
        multisig_input_bytes(2, 105),
    )
    .unwrap_err();
    assert!(
        matches!(err, SweepError::FeeExceedsValue { .. }),
        "got {err:?}"
    );
}

#[test]
fn a_sweep_that_would_produce_dust_is_refused() {
    let err = plan_sweep(
        SRC,
        SweepDestination::p2sh(DST, "Q".into()),
        &[utxo(1, 7_000)],
        RATE,
        DUST,
        20,
        multisig_input_bytes(2, 105),
    )
    .unwrap_err();
    assert!(
        matches!(err, SweepError::ResultIsDust { .. }),
        "got {err:?}"
    );
}

#[test]
fn the_input_cap_is_enforced() {
    let utxos: Vec<VaultUtxo> = (0..25).map(|i| utxo(i, 500_000)).collect();
    let err = plan_sweep(
        SRC,
        SweepDestination::p2sh(DST, "Q".into()),
        &utxos,
        RATE,
        DUST,
        20,
        multisig_input_bytes(2, 105),
    )
    .unwrap_err();
    assert_eq!(
        err,
        SweepError::TooManyInputs {
            needed: 25,
            max: 20
        }
    );
}

#[test]
fn the_commitment_changes_with_the_destination() {
    let utxos = vec![utxo(1, 500_000)];
    let a = plan(&utxos);
    let mut b = a.clone();
    b.dest_hash160 = [0x33; 20];
    b.dest_script_pubkey = p2sh_script_pubkey(&[0x33; 20]);
    assert_ne!(a.commitment(1), b.commitment(1));
}

#[test]
fn the_commitment_changes_with_the_source_vault() {
    let utxos = vec![utxo(1, 500_000)];
    let a = plan(&utxos);
    let mut b = a.clone();
    b.source_hash160 = [0x44; 20];
    assert_ne!(a.commitment(1), b.commitment(1));
}

#[test]
fn the_commitment_changes_with_the_input_set() {
    let a = plan(&[utxo(1, 500_000)]);
    let b = plan(&[utxo(1, 500_000), utxo(2, 500_000)]);
    assert_ne!(a.commitment(1), b.commitment(1));
}

#[test]
fn the_commitment_changes_with_input_order() {
    let a = plan(&[utxo(1, 500_000), utxo(2, 700_000)]);
    let b = plan(&[utxo(2, 700_000), utxo(1, 500_000)]);
    assert_ne!(a.commitment(1), b.commitment(1));
}

#[test]
fn the_commitment_changes_with_the_protocol_version() {
    let p = plan(&[utxo(1, 500_000)]);
    assert_ne!(p.commitment(1), p.commitment(2));
}

#[test]
fn the_commitment_is_domain_separated() {
    let p = plan(&[utxo(1, 500_000)]);
    assert!(p.canonical_intent(1).starts_with(&SWEEP_DOMAIN_TAG));
}

#[test]
fn the_commitment_is_stable_for_the_same_plan() {
    let utxos = vec![utxo(1, 500_000), utxo(2, 700_000)];
    assert_eq!(plan(&utxos).commitment(1), plan(&utxos).commitment(1));
}

#[test]
fn a_transaction_paying_a_different_destination_is_rejected() {
    let p = plan(&[utxo(1, 500_000)]);
    let mut tx = tx_for(&p);
    tx.outputs[0].script_pubkey = p2sh_script_pubkey(&[0x99; 20]);
    assert!(
        matches!(
            verify_sweep_tx(&tx, &p).unwrap_err(),
            SweepError::WrongDestination { .. }
        ),
        "a redirected sweep must never be signed"
    );
}

#[test]
fn a_transaction_paying_a_different_amount_is_rejected() {
    let p = plan(&[utxo(1, 500_000)]);
    let mut tx = tx_for(&p);
    tx.outputs[0].value -= 1;
    assert!(matches!(
        verify_sweep_tx(&tx, &p).unwrap_err(),
        SweepError::WrongAmount { .. }
    ));
}

#[test]
fn a_second_output_is_rejected() {
    let p = plan(&[utxo(1, 500_000)]);
    let mut tx = tx_for(&p);
    tx.outputs.push(TxOutput {
        value: 1,
        script_pubkey: p2sh_script_pubkey(&SRC),
    });
    assert_eq!(
        verify_sweep_tx(&tx, &p).unwrap_err(),
        SweepError::NotSingleOutput(2)
    );
}

#[test]
fn a_transaction_carrying_display_order_txids_is_rejected() {
    let p = plan(&[utxo(1, 500_000), utxo(2, 700_000)]);
    let mut tx = tx_for(&p);
    for (inp, want) in tx.inputs.iter_mut().zip(&p.inputs) {
        inp.prev_txid = want.txid;
    }
    assert!(
        matches!(
            verify_sweep_tx(&tx, &p).unwrap_err(),
            SweepError::InputMismatch { .. }
        ),
        "a transaction whose inputs are in display order is not the planned sweep"
    );
}

#[test]
fn the_two_txid_orders_are_genuinely_different() {
    let u = utxo(1, 500_000);
    assert_ne!(
        internal_txid(&u.txid),
        u.txid,
        "the fixture txid must not be a palindrome, or the order test proves nothing"
    );
    assert_eq!(
        internal_txid(&internal_txid(&u.txid)),
        u.txid,
        "reversal is its own inverse"
    );
}

#[test]
fn a_substituted_input_is_rejected() {
    let p = plan(&[utxo(1, 500_000), utxo(2, 700_000)]);
    let mut tx = tx_for(&p);
    tx.inputs[1].prev_txid = internal_txid(&[0xEE; 32]);
    assert!(matches!(
        verify_sweep_tx(&tx, &p).unwrap_err(),
        SweepError::InputMismatch { index: 1, .. }
    ));
}

#[test]
fn a_reordered_input_set_is_rejected() {
    let p = plan(&[utxo(1, 500_000), utxo(2, 700_000)]);
    let mut tx = tx_for(&p);
    tx.inputs.swap(0, 1);
    assert!(matches!(
        verify_sweep_tx(&tx, &p).unwrap_err(),
        SweepError::InputMismatch { .. }
    ));
}

#[test]
fn a_dropped_input_is_rejected() {
    let p = plan(&[utxo(1, 500_000), utxo(2, 700_000)]);
    let mut tx = tx_for(&p);
    tx.inputs.pop();
    assert_eq!(
        verify_sweep_tx(&tx, &p).unwrap_err(),
        SweepError::InputCountMismatch {
            expected: 2,
            found: 1
        }
    );
}

#[test]
fn an_extra_input_is_rejected() {
    let p = plan(&[utxo(1, 500_000)]);
    let mut tx = tx_for(&p);
    tx.inputs.push(TxInput {
        prev_txid: [0x77; 32],
        prev_vout: 0,
        script_sig: Vec::new(),
        sequence: 0xffff_ffff,
    });
    assert_eq!(
        verify_sweep_tx(&tx, &p).unwrap_err(),
        SweepError::InputCountMismatch {
            expected: 1,
            found: 2
        }
    );
}

#[test]
fn a_pre_signed_transaction_is_rejected() {
    let p = plan(&[utxo(1, 500_000)]);
    let mut tx = tx_for(&p);
    tx.inputs[0].script_sig = vec![0x00, 0x47];
    assert_eq!(
        verify_sweep_tx(&tx, &p).unwrap_err(),
        SweepError::AlreadySigned(0)
    );
}

#[test]
fn the_p2sh_script_has_the_shape_consensus_requires() {
    let s = p2sh_script_pubkey(&DST);
    assert_eq!(s.len(), 23);
    assert_eq!(s[0], 0xa9);
    assert_eq!(s[1], 0x14);
    assert_eq!(&s[2..22], &DST);
    assert_eq!(s[22], 0x87);
}
