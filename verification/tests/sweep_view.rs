//! Which sweeps a validator signs.

use glc_bridge::glc::hex::{decode_vec, encode};
use glc_bridge::glc::withdrawal_db::VaultUtxo;
use glc_bridge::p2p::sweep_view::{
    dest_hash160_of, SigningReply, StoreRead, SweepApproval, SweepRefusal, SweepView,
};
use glc_bridge::withdrawal::config::WithdrawalConfig;
use glc_bridge::withdrawal::multisig::{Transaction, TxInput, TxOutput};
use glc_bridge::withdrawal::sweep::p2sh_script_pubkey;
use glc_bridge::withdrawal::vault::MultisigVault;

/// An m-of-n vault whose redeem script is `m <keys> n CHECKMULTISIG`.
fn vault_of(n: usize, m: usize) -> MultisigVault {
    let keys: Vec<[u8; 33]> = (0..n)
        .map(|i| {
            let mut k = [0u8; 33];
            k[0] = 0x02;
            k[32] = i as u8 + 1;
            k
        })
        .collect();
    let mut redeem_script = vec![0x50 + m as u8];
    for k in &keys {
        redeem_script.push(33);
        redeem_script.extend_from_slice(k);
    }
    redeem_script.push(0x50 + n as u8);
    redeem_script.push(0xae);
    MultisigVault {
        threshold: m,
        signer_pubkeys: keys,
        redeem_script,
        script_hash160: [0x11; 20],
        address: "Qvault".to_string(),
    }
}

fn cfg_of(n: usize, m: usize) -> WithdrawalConfig {
    WithdrawalConfig {
        vault: vault_of(n, m),
        vault_address: "Qvault".to_string(),
        change_address: "Qvault".to_string(),
        change_hash160: [0x11; 20],
        fee_rate_per_kb: 10_000,
        dust_threshold_atomic: 5_400,
        vault_min_confirmations: 1,
        confirmation_depth: 2,
        max_inputs_per_payout: 20,
        reservation_timeout_secs: 900,
    }
}

fn view() -> SweepView {
    SweepView::new(cfg_of(3, 2), 0).unwrap()
}

/// The rows of a validator whose vault holds `amounts`.
fn rows(amounts: &[u64]) -> Vec<VaultUtxo> {
    amounts
        .iter()
        .enumerate()
        .map(|(i, a)| VaultUtxo {
            txid: [i as u8 + 1; 32],
            txid_hex: encode(&[i as u8 + 1; 32]),
            vout: 0,
            amount_atomic: *a,
            script_pubkey_hex: vault_of(3, 2).script_pubkey_hex(),
            confirmations: 10,
        })
        .collect()
}

/// The unsigned sweep an operator would build from those rows.
fn sweep_tx(rows: &[VaultUtxo], dest: &[u8; 20], fee: u64) -> Transaction {
    let total: u64 = rows.iter().map(|u| u.amount_atomic).sum();
    Transaction {
        version: 1,
        inputs: rows
            .iter()
            .map(|u| TxInput {
                prev_txid: u.txid,
                prev_vout: u.vout as u32,
                script_sig: Vec::new(),
                sequence: 0xffff_ffff,
            })
            .collect(),
        outputs: vec![TxOutput {
            value: total - fee,
            script_pubkey: p2sh_script_pubkey(dest),
        }],
        lock_time: 0,
    }
}

fn stage(commitment: [u8; 32], expiry: i64) -> StoreRead {
    StoreRead::Text(
        SweepApproval {
            commitment,
            expiry_unix: expiry,
            note: "INC-42".to_string(),
        }
        .to_text(),
    )
}

fn commitment_of(v: &SweepView, rows: &[VaultUtxo], tx: &Transaction) -> [u8; 32] {
    v.plan_from_local_view(rows, tx).unwrap().commitment(1)
}

#[test]
fn refuses_to_construct_with_a_vault_index_out_of_range() {
    let err = match SweepView::new(cfg_of(3, 2), 3) {
        Err(e) => e,
        Ok(_) => panic!("a vault index outside the signer set must be refused"),
    };
    assert!(err.contains("out of range"), "{err}");
    assert_eq!(err, "vault signer index 3 is out of range for a 3-signer vault");
}

#[test]
fn an_approval_round_trips_through_its_text_form() {
    let a = SweepApproval {
        commitment: [0x5a; 32],
        expiry_unix: 1_800_000_000,
        note: "vault key suspected compromised, ticket INC-42".into(),
    };
    let back = SweepApproval::from_text(&a.to_text()).unwrap().unwrap();
    assert_eq!(back, a);
}

#[test]
fn a_missing_store_means_no_approval_rather_than_an_error() {
    assert_eq!(SweepApproval::load(&StoreRead::Missing).unwrap(), None);
}

#[test]
fn an_unreadable_store_is_an_error() {
    let err = SweepApproval::load(&StoreRead::Failed("permission denied".to_string())).unwrap_err();
    assert!(matches!(err, SweepRefusal::StoreUnreadable(_)));
    assert_eq!(
        err.message(),
        "sweep approval store is unreadable: permission denied"
    );
}

#[test]
fn comments_and_blank_lines_are_tolerated() {
    let text = "# staged 2026-07-30 by kavinda\n\n\
                5a5a5a5a5a5a5a5a5a5a5a5a5a5a5a5a5a5a5a5a5a5a5a5a5a5a5a5a5a5a5a5a 99 why\n";
    let a = SweepApproval::from_text(text).unwrap().unwrap();
    assert_eq!(a.expiry_unix, 99);
    assert_eq!(a.note, "why");
}

#[test]
fn a_corrupt_store_is_an_error_rather_than_silently_empty() {
    assert!(SweepApproval::from_text("not-hex 1 note").is_err());
    assert!(SweepApproval::from_text("5a5a 1 note").is_err());
    assert!(SweepApproval::from_text(
        "5a5a5a5a5a5a5a5a5a5a5a5a5a5a5a5a5a5a5a5a5a5a5a5a5a5a5a5a5a5a5a5a notanumber n"
    )
    .is_err());
}

#[test]
fn a_later_line_supersedes_an_earlier_one() {
    let text = "1111111111111111111111111111111111111111111111111111111111111111 1 first\n\
                2222222222222222222222222222222222222222222222222222222222222222 2 second\n";
    let a = SweepApproval::from_text(text).unwrap().unwrap();
    assert_eq!(a.commitment, [0x22; 32]);
    assert_eq!(a.note, "second");
}

#[test]
fn the_p2sh_and_p2pkh_destination_shapes_are_recognised() {
    assert_eq!(dest_hash160_of(&p2sh_script_pubkey(&[7u8; 20])), [7u8; 20]);
    let mut p2pkh = vec![0x76, 0xa9, 0x14];
    p2pkh.extend_from_slice(&[9u8; 20]);
    p2pkh.extend_from_slice(&[0x88, 0xac]);
    assert_eq!(dest_hash160_of(&p2pkh), [9u8; 20]);
}

#[test]
fn an_unrecognised_destination_shape_yields_no_label_but_is_not_an_error() {
    assert_eq!(dest_hash160_of(&[0x6a]), [0u8; 20]);
}

#[test]
fn refuses_a_malformed_transaction_without_reaching_the_node() {
    let mut v = view();
    let why = decode_vec("not hex at all").unwrap_err().message();
    let err = v
        .sign_sweep(Ok(&[]), Err(why), &StoreRead::Missing, 1, 1_000)
        .unwrap_err();
    assert!(matches!(err, SweepRefusal::Malformed(_)), "got {err:?}");
}

#[test]
fn a_validator_without_its_rows_signs_nothing() {
    let mut v = view();
    let tx = sweep_tx(&rows(&[50_000_000]), &[0x22; 20], 2_000);
    let err = v
        .sign_sweep(
            Err("locked".to_string()),
            Ok(&tx),
            &StoreRead::Missing,
            1,
            1_000,
        )
        .unwrap_err();
    assert_eq!(err, SweepRefusal::DbUnreadable("locked".to_string()));
}

#[test]
fn refuses_a_sweep_of_outputs_this_validator_has_never_seen() {
    let mut v = view();
    let tx = Transaction {
        version: 1,
        inputs: vec![TxInput {
            prev_txid: [0xAB; 32],
            prev_vout: 0,
            script_sig: Vec::new(),
            sequence: 0xffff_ffff,
        }],
        outputs: vec![TxOutput {
            value: 100_000,
            script_pubkey: p2sh_script_pubkey(&[0x22; 20]),
        }],
        lock_time: 0,
    };
    let err = v
        .sign_sweep(Ok(&[]), Ok(&tx), &StoreRead::Missing, 1, 1_000)
        .unwrap_err();
    assert!(
        matches!(err, SweepRefusal::UnknownInput { index: 0, .. }),
        "got {err:?}"
    );
}

#[test]
fn an_output_that_is_named_twice_counts_once() {
    let v = view();
    let rows = rows(&[500_000, 700_000]);
    let twice = [rows[0].clone(), rows[1].clone(), rows[0].clone()];
    let tx = sweep_tx(&twice, &[0x22; 20], 2_000);
    assert_eq!(
        v.plan_from_local_view(&rows, &tx),
        Err(SweepRefusal::UnknownInput {
            index: 2,
            outpoint: format!("{}:0", encode(&[1; 32])),
        })
    );
    let once = sweep_tx(&rows, &[0x22; 20], 2_000);
    assert_eq!(v.plan_from_local_view(&rows, &once).unwrap().total_in(), 1_200_000);
}

#[test]
fn a_row_stands_for_no_other_position() {
    let v = view();
    let mut rows = rows(&[500_000]);
    let tx = sweep_tx(&rows, &[0x22; 20], 2_000);
    for vout in [1, -1, 1 << 32] {
        rows[0].vout = vout;
        assert_eq!(
            v.plan_from_local_view(&rows, &tx),
            Err(SweepRefusal::UnknownInput {
                index: 0,
                outpoint: format!("{}:0", encode(&[1; 32])),
            })
        );
    }
    rows[0].vout = 0;
    assert_eq!(
        v.plan_from_local_view(&rows, &tx).unwrap().total_in(),
        500_000
    );
}

#[test]
fn refuses_every_sweep_when_nothing_is_staged() {
    let mut v = view();
    let rows = rows(&[500_000, 700_000]);
    let tx = sweep_tx(&rows, &[0x22; 20], 2_000);
    assert_eq!(
        v.sign_sweep(Ok(&rows[..]), Ok(&tx), &StoreRead::Missing, 1, 1_000)
            .unwrap_err(),
        SweepRefusal::NotApproved
    );
}

#[test]
fn refuses_a_sweep_to_a_destination_the_operator_did_not_approve() {
    let mut v = view();
    let rows = rows(&[500_000, 700_000]);
    let approved = sweep_tx(&rows, &[0x22; 20], 2_000);
    let store = stage(commitment_of(&v, &rows, &approved), 9_999);
    let attacker = sweep_tx(&rows, &[0xEE; 20], 2_000);
    assert_eq!(
        v.sign_sweep(Ok(&rows[..]), Ok(&attacker), &store, 1, 1_000).unwrap_err(),
        SweepRefusal::DifferentSweepApproved
    );
}

#[test]
fn refuses_a_sweep_whose_amount_was_altered_after_approval() {
    let mut v = view();
    let rows = rows(&[500_000, 700_000]);
    let approved = sweep_tx(&rows, &[0x22; 20], 2_000);
    let store = stage(commitment_of(&v, &rows, &approved), 9_999);
    let altered = sweep_tx(&rows, &[0x22; 20], 5_000);
    assert_eq!(
        v.sign_sweep(Ok(&rows[..]), Ok(&altered), &store, 1, 1_000).unwrap_err(),
        SweepRefusal::DifferentSweepApproved
    );
}

#[test]
fn refuses_an_expired_approval() {
    let mut v = view();
    let rows = rows(&[500_000]);
    let tx = sweep_tx(&rows, &[0x22; 20], 2_000);
    let store = stage(commitment_of(&v, &rows, &tx), 1_000);
    assert_eq!(
        v.sign_sweep(Ok(&rows[..]), Ok(&tx), &store, 1, 1_001).unwrap_err(),
        SweepRefusal::ApprovalExpired {
            expiry: 1_000,
            now: 1_001
        }
    );
}

#[test]
fn an_approval_is_valid_until_the_very_second_it_expires() {
    let mut v = view();
    let rows = rows(&[500_000]);
    let tx = sweep_tx(&rows, &[0x22; 20], 2_000);
    let store = stage(commitment_of(&v, &rows, &tx), 1_000);
    assert!(v.sign_sweep(Ok(&rows[..]), Ok(&tx), &store, 1, 1_000).is_ok());
}

#[test]
fn revoking_an_approval_takes_effect_without_a_restart() {
    let mut v = view();
    let rows = rows(&[500_000]);
    let tx = sweep_tx(&rows, &[0x22; 20], 2_000);
    let _staged = stage(commitment_of(&v, &rows, &tx), 9_999);
    assert_eq!(
        v.sign_sweep(Ok(&rows[..]), Ok(&tx), &StoreRead::Missing, 1, 1_000)
            .unwrap_err(),
        SweepRefusal::NotApproved
    );
}

#[test]
fn an_absurd_fee_is_refused_even_when_it_was_approved() {
    let mut v = view();
    let rows = rows(&[10_000_000]);
    let tx = sweep_tx(&rows, &[0x22; 20], 9_000_000);
    let err = v
        .sign_sweep(Ok(&rows[..]), Ok(&tx), &StoreRead::Missing, 1, 1_000)
        .unwrap_err();
    assert!(
        matches!(err, SweepRefusal::FeeTooHigh { .. }),
        "got {err:?}"
    );
}

#[test]
fn a_sweep_paying_out_more_than_it_spends_is_refused() {
    let mut v = view();
    let rows = rows(&[500_000]);
    let mut tx = sweep_tx(&rows, &[0x22; 20], 2_000);
    tx.outputs[0].value = 900_000;
    assert_eq!(
        v.sign_sweep(Ok(&rows[..]), Ok(&tx), &StoreRead::Missing, 1, 1_000)
            .unwrap_err(),
        SweepRefusal::OutputExceedsInputs
    );
}

#[test]
fn a_sweep_with_a_second_output_is_refused() {
    let mut v = view();
    let vault = vault_of(3, 2);
    let rows = rows(&[500_000]);
    let mut tx = sweep_tx(&rows, &[0x22; 20], 2_000);
    tx.outputs[0].value -= 100_000;
    tx.outputs.push(TxOutput {
        value: 100_000,
        script_pubkey: decode_vec(&vault.script_pubkey_hex()).unwrap(),
    });
    let err = v
        .sign_sweep(Ok(&rows[..]), Ok(&tx), &StoreRead::Missing, 1, 1_000)
        .unwrap_err();
    assert!(matches!(err, SweepRefusal::PlanMismatch(_)), "got {err:?}");
}

#[test]
fn having_signed_one_sweep_it_refuses_a_second_different_one() {
    let vault = vault_of(3, 2);
    let mut v = view();
    let rows = rows(&[500_000, 700_000]);

    let first = sweep_tx(&rows, &[0x22; 20], 2_000);
    let first_commitment = commitment_of(&v, &rows, &first);
    let store = stage(first_commitment, 9_999);
    let authorised = v
        .sign_sweep(Ok(&rows[..]), Ok(&first), &store, 1, 1_000)
        .expect("the staged sweep is signed");
    assert_eq!(authorised.prevtxs.len(), 2, "one previous output per input");
    assert_eq!(
        authorised.prevtxs[0].redeem_script,
        encode(&vault.redeem_script)
    );
    let partial = v
        .finish_sweep(
            &authorised.plan,
            SigningReply::Signed(vec![vec![0xAB; 71], vec![0xAB; 71]]),
        )
        .unwrap();
    assert_eq!(
        v.finish_sweep(&authorised.plan, SigningReply::Failed("locked".to_string())),
        Err(SweepRefusal::SigningFailed("locked".to_string()))
    );
    assert_eq!(
        v.finish_sweep(&authorised.plan, SigningReply::Unreadable("short".to_string())),
        Err(SweepRefusal::MalformedPartial("short".to_string()))
    );
    assert_eq!(
        partial.partial.signatures.len(),
        2,
        "one signature per input"
    );
    assert_eq!(partial.partial.vault_pubkey, vault.signer_pubkeys[0]);
    assert_eq!(partial.inputs, 2);
    assert!(partial.swept_atomic > 0);

    v.sign_sweep(Ok(&rows[..]), Ok(&first), &store, 1, 1_000)
        .expect("retrying the same sweep is idempotent");

    let second = sweep_tx(&rows, &[0x44; 20], 2_000);
    let second_commitment = commitment_of(&v, &rows, &second);
    assert_ne!(first_commitment, second_commitment);
    let store = stage(second_commitment, 9_999);
    assert_eq!(
        v.sign_sweep(Ok(&rows[..]), Ok(&second), &store, 1, 1_000).unwrap_err(),
        SweepRefusal::AlreadySignedAnother
    );
}

#[test]
fn the_local_plan_reads_amounts_from_this_validators_own_rows() {
    let v = view();
    let rows = rows(&[500_000, 700_000]);
    let tx = sweep_tx(&rows, &[0x22; 20], 2_000);
    let plan = v.plan_from_local_view(&rows, &tx).unwrap();
    assert_eq!(plan.total_in(), 1_200_000);
    assert_eq!(plan.fee_atomic, 2_000);
    assert_eq!(plan.swept_atomic, 1_198_000);
    assert_eq!(plan.inputs, rows);
    assert_eq!(plan.source_hash160, vault_of(3, 2).script_hash160);
}

#[test]
fn the_view_signs_with_the_vault_key_at_its_index() {
    let v = SweepView::new(cfg_of(3, 2), 2).unwrap();
    assert_eq!(v.vault_pubkey(), vault_of(3, 2).signer_pubkeys[2]);
}

#[test]
fn every_sweep_refusal_says_what_happened() {
    let cases = [
        (
            SweepRefusal::NotApproved,
            "this validator's operator has not approved any sweep",
        ),
        (
            SweepRefusal::DifferentSweepApproved,
            "this validator's operator approved a DIFFERENT sweep",
        ),
        (
            SweepRefusal::ApprovalExpired {
                expiry: -1,
                now: 20,
            },
            "the sweep approval expired at -1, now 20",
        ),
        (
            SweepRefusal::AlreadySignedAnother,
            "this validator has already signed a DIFFERENT sweep",
        ),
        (
            SweepRefusal::Malformed("x".to_string()),
            "the proposed sweep transaction is malformed: x",
        ),
        (
            SweepRefusal::FeeTooHigh {
                fee: 12,
                ceiling: 11,
            },
            "the sweep pays a 12 fee, more than the 11 ceiling for its shape",
        ),
        (
            SweepRefusal::SigningFailed("x".to_string()),
            "signing on this validator's own node failed: x",
        ),
        (
            SweepRefusal::MalformedPartial("x".to_string()),
            "the node returned a malformed partial signature: x",
        ),
        (
            SweepRefusal::DbUnreadable("x".to_string()),
            "this validator's database is unreadable: x",
        ),
    ];
    for (refusal, text) in cases {
        assert_eq!(refusal.message(), text);
    }
}
