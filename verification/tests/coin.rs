//! Fee policy and coin selection.

use glc_bridge::glc::hex::encode;
use glc_bridge::glc::withdrawal_db::VaultUtxo;
use glc_bridge::withdrawal::coin::{
    estimated_size_bytes, fee_for, multisig_input_bytes, select, SelectionError,
};

fn utxo(seed: u8, vout: i64, amount: u64) -> VaultUtxo {
    let txid = [seed; 32];
    VaultUtxo {
        txid,
        txid_hex: encode(&txid),
        vout,
        amount_atomic: amount,
        script_pubkey_hex: "76a914".to_string() + &"11".repeat(20) + "88ac",
        confirmations: 10,
    }
}

fn sorted(mut v: Vec<VaultUtxo>) -> Vec<VaultUtxo> {
    v.sort_by(|a, b| {
        b.amount_atomic
            .cmp(&a.amount_atomic)
            .then_with(|| a.txid_hex.cmp(&b.txid_hex))
            .then_with(|| a.vout.cmp(&b.vout))
    });
    v
}

const P2SH: u64 = 299;
const RATE: u64 = 10_000;
const DUST: u64 = 5_400;
const MAX_IN: usize = 20;

#[test]
fn a_multisig_input_is_sized_from_the_vault_that_is_actually_spent() {
    assert_eq!(multisig_input_bytes(2, 105), 299);
    assert!(
        multisig_input_bytes(2, 105) > 2 * 148 - 100,
        "a 2-of-3 input is roughly twice a P2PKH input, not equal to it"
    );
    assert!(multisig_input_bytes(3, 105) > multisig_input_bytes(2, 105));
    assert!(multisig_input_bytes(2, 140) > multisig_input_bytes(2, 105));
}

#[test]
fn the_redeem_script_push_prefix_grows_at_the_opcode_boundaries() {
    assert_eq!(
        multisig_input_bytes(2, 76) - multisig_input_bytes(2, 75),
        2,
        "one more script byte plus one more prefix byte"
    );
    assert_eq!(
        multisig_input_bytes(1, 256) - multisig_input_bytes(1, 255),
        2,
        "OP_PUSHDATA1 -> OP_PUSHDATA2 at 256"
    );
}

#[test]
fn the_script_sig_length_varint_widens_at_252() {
    assert_eq!(multisig_input_bytes(2, 101), 36 + 1 + 252 + 4);
    assert_eq!(multisig_input_bytes(2, 102), 36 + 3 + 253 + 4);
}

#[test]
fn selection_pays_the_multisig_rate_not_the_p2pkh_rate() {
    let c = sorted(vec![utxo(1, 0, 5_000_000)]);
    let real = select(&c, 1_000_000, RATE, DUST, MAX_IN, P2SH).unwrap();
    let as_p2pkh = select(&c, 1_000_000, RATE, DUST, MAX_IN, 148).unwrap();
    assert!(
        real.fee_atomic > as_p2pkh.fee_atomic,
        "a multisig payout must cost more than a P2PKH one: {} vs {}",
        real.fee_atomic,
        as_p2pkh.fee_atomic
    );
    assert_eq!(real.fee_atomic, fee_for(1, 2, RATE, P2SH));
    assert_eq!(
        real.total_in - real.fee_atomic - real.change_atomic,
        1_000_000
    );
}

#[test]
fn fee_grows_with_inputs_and_rounds_up() {
    assert_eq!(estimated_size_bytes(1, 2, 148), 10 + 148 + 68);
    assert!(fee_for(2, 2, RATE, P2SH) > fee_for(1, 2, RATE, P2SH));
    assert_eq!(fee_for(1, 2, 1, P2SH), 1);
}

#[test]
fn exact_match_spends_one_utxo_with_no_change() {
    let fee = fee_for(1, 1, RATE, P2SH);
    let target = 100_000 + fee;
    let c = sorted(vec![utxo(1, 0, target), utxo(2, 0, 999_999)]);
    let s = select(&c, 100_000, RATE, DUST, MAX_IN, P2SH).unwrap();
    assert_eq!(s.inputs.len(), 1);
    assert_eq!(s.inputs[0].amount_atomic, target);
    assert_eq!(s.change_atomic, 0, "exact match creates no change");
    assert_eq!(s.fee_atomic, fee);
    assert_eq!(s.total_in, s.fee_atomic + 100_000);
}

#[test]
fn prefers_the_smallest_covering_utxo_to_minimise_change() {
    let c = sorted(vec![
        utxo(1, 0, 10_000_000),
        utxo(2, 0, 200_000),
        utxo(3, 0, 5_000_000),
    ]);
    let s = select(&c, 100_000, RATE, DUST, MAX_IN, P2SH).unwrap();
    assert_eq!(s.inputs.len(), 1);
    assert_eq!(
        s.inputs[0].amount_atomic, 200_000,
        "must pick the smallest covering UTXO, not the largest"
    );
}

#[test]
fn accumulates_greedily_when_no_single_utxo_covers() {
    let c = sorted(vec![
        utxo(1, 0, 60_000),
        utxo(2, 0, 50_000),
        utxo(3, 0, 40_000),
    ]);
    let s = select(&c, 100_000, RATE, DUST, MAX_IN, P2SH).unwrap();
    assert!(s.inputs.len() >= 2);
    assert!(s.total_in >= 100_000 + s.fee_atomic);
    assert_eq!(s.total_in, 100_000 + s.fee_atomic + s.change_atomic);
}

#[test]
fn vault_absorbs_the_fee_payout_is_always_the_full_amount() {
    let c = sorted(vec![utxo(1, 0, 5_000_000)]);
    let amount = 1_000_000;
    let s = select(&c, amount, RATE, DUST, MAX_IN, P2SH).unwrap();
    assert_eq!(
        s.total_in - s.fee_atomic - s.change_atomic,
        amount,
        "exactly `amount` reaches the destination"
    );
}

#[test]
fn sub_dust_change_is_folded_into_the_fee_never_created_as_an_output() {
    let base_fee = fee_for(1, 2, RATE, P2SH);
    let total = 100_000 + base_fee + (DUST - 1);
    let c = sorted(vec![utxo(1, 0, total)]);
    let s = select(&c, 100_000, RATE, DUST, MAX_IN, P2SH).unwrap();
    assert_eq!(s.change_atomic, 0, "no dust output is ever created");
    assert_eq!(
        s.fee_atomic,
        total - 100_000,
        "the dust is absorbed into the fee"
    );
    assert_eq!(s.total_in - s.fee_atomic, 100_000);
}

#[test]
fn change_at_exactly_the_dust_threshold_is_kept() {
    let base_fee = fee_for(1, 2, RATE, P2SH);
    let total = 100_000 + base_fee + DUST;
    let c = sorted(vec![utxo(1, 0, total)]);
    let s = select(&c, 100_000, RATE, DUST, MAX_IN, P2SH).unwrap();
    assert_eq!(s.change_atomic, DUST, "dust threshold is inclusive-keep");
}

#[test]
fn insufficient_funds_are_reported_not_partially_paid() {
    let c = sorted(vec![utxo(1, 0, 10_000), utxo(2, 0, 5_000)]);
    let err = select(&c, 1_000_000, RATE, DUST, MAX_IN, P2SH).unwrap_err();
    match err {
        SelectionError::Insufficient { available, .. } => assert_eq!(available, 15_000),
        other => panic!("expected Insufficient, got {other:?}"),
    }
}

#[test]
fn empty_candidate_set_is_insufficient() {
    assert!(matches!(
        select(&[], 1, RATE, DUST, MAX_IN, P2SH).unwrap_err(),
        SelectionError::Insufficient { .. }
    ));
}

#[test]
fn respects_the_max_inputs_cap() {
    let c = sorted((0..10).map(|i| utxo(i as u8, 0, 10_000)).collect());
    let err = select(&c, 90_000, RATE, DUST, 3, P2SH).unwrap_err();
    assert!(matches!(err, SelectionError::TooManyInputs { max: 3, .. }));
}

#[test]
fn selection_is_deterministic_across_repeated_runs() {
    let c = sorted(vec![
        utxo(3, 1, 500_000),
        utxo(1, 0, 500_000),
        utxo(2, 7, 500_000),
    ]);
    let a = select(&c, 100_000, RATE, DUST, MAX_IN, P2SH).unwrap();
    let b = select(&c, 100_000, RATE, DUST, MAX_IN, P2SH).unwrap();
    assert_eq!(a, b);
    assert_eq!(a.inputs[0].txid_hex, encode(&[1u8; 32]));
}

#[test]
fn conservation_holds_for_every_successful_selection() {
    for amount in [1u64, 999, 100_000, 1_000_000, 7_777_777] {
        let c = sorted(vec![
            utxo(1, 0, 4_000_000),
            utxo(2, 0, 3_000_000),
            utxo(3, 0, 2_000_000),
        ]);
        if let Ok(s) = select(&c, amount, RATE, DUST, MAX_IN, P2SH) {
            assert_eq!(
                s.total_in,
                amount + s.fee_atomic + s.change_atomic,
                "inputs must equal payout + fee + change exactly"
            );
            assert!(s.fee_atomic > 0, "a fee is always paid");
        }
    }
}

#[test]
fn a_fee_is_rounded_up_at_any_rate() {
    assert_eq!(fee_for(1, 2, u64::MAX, P2SH), 6_954_422_515_788_500_959);
    assert_eq!(fee_for(1, 1, 1, P2SH), 1);
    assert_eq!(fee_for(0, 0, 100, 0), 1);
    assert_eq!(fee_for(0, 0, 101, 0), 2);
    // More than 64 bits hold.
    assert_eq!(fee_for(10, 2, u64::MAX, P2SH), u64::MAX);
}

#[test]
fn a_payout_that_the_largest_amount_cannot_pay_is_refused() {
    let c = vec![utxo(1, 0, u64::MAX)];
    assert_eq!(
        select(&c, u64::MAX, RATE, DUST, MAX_IN, P2SH),
        Err(SelectionError::Insufficient {
            required: u64::MAX,
            available: u64::MAX
        })
    );
}
