//! What the operator's commands decide.

use glc_bridge::glc::hex::encode;
use glc_bridge::glc::rpc::{BroadcastOutcome, RpcError};
use glc_bridge::glc::withdrawal_db::{VaultUtxo, WithdrawalRow, WithdrawalState};
use glc_bridge::ops::admin::{
    accept_admin, check_raise, check_threshold, create_wrapped_mint, initialize, lower_tvl_cap,
    confirm, parse_quorum, parse_validators, pending_action, reassign_quorum, rotation,
    submit_rotation, verify_postcondition, AdminRefusal, Expectation, InitializeArgs,
    PayoutSigning,
};
use glc_bridge::ops::sweep_approval::{build_plan, outputs_left_behind, sweep_approve};
use glc_bridge::ops::sweep_execution::{
    start_sweep, sweep_execute, sweep_signers, SweepEvent, SweepFailure, SweepOutcome, SweepStep,
};
use glc_bridge::ops::token_metadata::{
    check_metadata, metadata_mint, problems_message, token_metadata, update_token_metadata,
    updated_values, verify_token_metadata, verify_update, wanted_uri, MetadataFailure,
    MetadataProblem, MetadataStep, UpdateFailure, UpdateStep,
};
use glc_bridge::p2p::sweep_view::{SigningReply, StoreRead, SweepApproval, SweepView};
use glc_bridge::solana::confirm::{ConfirmFailure, Signature};
use glc_bridge::solana::duration::Duration;
use glc_bridge::solana::instruction::{
    create_token_metadata_instruction, initialize_instruction, propose_rotation_instruction,
    update_token_metadata_instruction, WRAPPED_GLC_URI,
};
use glc_bridge::solana::pubkey::Pubkey;
use glc_bridge::solana::rpc::{BridgeConfigSnapshot, SolanaRpcError, TokenMetadataSnapshot};
use glc_bridge::text::NumberError;
use glc_bridge::withdrawal::building::{payout_intent, Amounts};
use glc_bridge::withdrawal::config::WithdrawalConfig;
use glc_bridge::withdrawal::multisig::{PartialSignature, Transaction, TxInput, TxOutput};
use glc_bridge::withdrawal::signing::AssembledTx;
use glc_bridge::withdrawal::sweep::{
    internal_txid, plan_sweep, SweepDestination, SweepError, SweepPlan,
};
use glc_bridge::withdrawal::vault::MultisigVault;

fn key(b: u8) -> Pubkey {
    Pubkey::new_from_array([b; 32])
}

fn text(b: u8) -> String {
    solana_sdk::pubkey::Pubkey::new_from_array([b; 32]).to_string()
}

fn config() -> BridgeConfigSnapshot {
    BridgeConfigSnapshot {
        protocol_version: 1,
        admin: key(1),
        pending_admin: None,
        paused: false,
        withdrawal_count: 0,
        min_deposit: 1,
        min_withdrawal: 1,
        wrapped_mint: Pubkey::default(),
        governance_timelock_seconds: 60,
        max_wrapped_supply: 100,
    }
}

#[test]
fn validators_are_read_in_the_order_they_are_typed() {
    let typed = format!(" {}, {} ,,{}", text(3), text(1), text(2));
    assert_eq!(parse_validators(&typed), Ok(vec![key(3), key(1), key(2)]));
    assert_eq!(parse_validators(""), Ok(vec![]));
}

#[test]
fn a_text_that_is_no_key_is_named() {
    let e = parse_validators(&format!("{},nope0", text(1))).unwrap_err();
    let why = "nope0"
        .parse::<solana_sdk::pubkey::Pubkey>()
        .unwrap_err()
        .to_string();
    assert_eq!(
        e,
        AdminRefusal::NotAKey {
            item: "nope0".to_string(),
            why: why.clone()
        }
    );
    assert_eq!(e.message(), format!("\"nope0\" is not a pubkey: {why}"));
}

#[test]
fn a_key_is_read_from_the_text_that_shows_it() {
    let highest = Pubkey::new_from_array([0xff; 32]);
    let shown = solana_sdk::pubkey::Pubkey::new_from_array([0xff; 32]).to_string();
    assert_eq!(shown.len(), 44);
    assert_eq!(parse_validators(&shown), Ok(vec![highest]));
    let lowest = "1".repeat(32);
    assert_eq!(
        parse_validators(&lowest),
        Ok(vec![Pubkey::new_from_array([0; 32])])
    );
    for (typed, why) in [
        ("1".repeat(31), "String is the wrong size"),
        ("1".repeat(33), "String is the wrong size"),
        ("2".repeat(20), "String is the wrong size"),
        ("z".repeat(44), "String is the wrong size"),
        ("z".repeat(45), "String is the wrong size"),
        ("0".repeat(45), "String is the wrong size"),
        ("0".repeat(44), "Invalid Base58 string"),
        (format!("{}O", "1".repeat(31)), "Invalid Base58 string"),
        ("é".to_string(), "Invalid Base58 string"),
        ("é".repeat(23), "String is the wrong size"),
    ] {
        assert_eq!(
            parse_validators(&typed),
            Err(AdminRefusal::NotAKey {
                item: typed.clone(),
                why: why.to_string()
            }),
            "{typed}"
        );
    }
}

#[test]
fn a_threshold_lies_between_one_and_all() {
    assert_eq!(check_threshold(1, 1), Ok(()));
    assert_eq!(check_threshold(2, 3), Ok(()));
    for (threshold, validators) in [(0u8, 3usize), (4, 3), (1, 0)] {
        let e = check_threshold(threshold, validators).unwrap_err();
        assert_eq!(
            e.message(),
            format!("threshold {threshold} is impossible for {validators} validators")
        );
    }
    assert_eq!(
        rotation(&text(1), 2),
        Err(AdminRefusal::ImpossibleThreshold {
            threshold: 2,
            validators: 1
        })
    );
}

#[test]
fn a_rotation_is_proposed_for_the_typed_validators() {
    let typed = format!("{},{}", text(5), text(4));
    assert_eq!(
        submit_rotation(&key(9), &key(8), &typed, 2),
        Ok(Some(propose_rotation_instruction(
            &key(9),
            &key(8),
            &[key(5), key(4)],
            2
        )))
    );
    assert!(submit_rotation(&key(9), &key(8), &typed, 3).is_err());
}

fn initial() -> InitializeArgs {
    InitializeArgs {
        validators: format!("{},{}", text(5), text(4)),
        threshold: 2,
        timelock_secs: 3_600,
        max_supply: 21_000,
        min_deposit: 10,
        min_withdrawal: 20,
    }
}

#[test]
fn the_bridge_is_stood_up_as_it_is_stated() {
    assert_eq!(
        initialize(&key(9), &key(8), &initial()),
        Ok(Some(initialize_instruction(
            &key(9),
            &key(8),
            &[key(5), key(4)],
            2,
            10,
            20,
            3_600,
            21_000
        )))
    );
}

#[test]
fn a_bridge_without_bounds_is_not_stood_up() {
    let mut a = initial();
    a.timelock_secs = 0;
    let e = initialize(&key(9), &key(8), &a).unwrap_err();
    assert_eq!(e, AdminRefusal::NoTimelock);
    assert!(e
        .message()
        .starts_with("the governance timelock must be positive"));
    let mut a = initial();
    a.max_supply = 0;
    let e = initialize(&key(9), &key(8), &a).unwrap_err();
    assert_eq!(e, AdminRefusal::NoInitialCap);
    assert!(e
        .message()
        .starts_with("a wrapped-supply cap of zero is never valid: "));
    let mut a = initial();
    a.threshold = 3;
    assert!(matches!(
        initialize(&key(9), &key(8), &a),
        Err(AdminRefusal::ImpossibleThreshold { .. })
    ));
}

#[test]
fn a_cap_of_zero_is_refused() {
    assert_eq!(check_raise(1), Ok(()));
    assert_eq!(lower_tvl_cap(1), Ok(()));
    assert_eq!(
        check_raise(0).unwrap_err().message(),
        "a wrapped-supply cap of zero is never valid"
    );
    assert_eq!(
        lower_tvl_cap(0).unwrap_err().message(),
        "a wrapped-supply cap of zero is never valid; the program refuses it"
    );
}

#[test]
fn the_wrapped_mint_is_created_once() {
    assert_eq!(create_wrapped_mint(&config()), Ok(()));
    assert_eq!(
        metadata_mint(&config()).unwrap_err().message(),
        "no wrapped mint exists yet — run `glc-admin create-wrapped-mint` first"
    );
    let mut c = config();
    c.wrapped_mint = key(7);
    assert_eq!(metadata_mint(&c), Ok(key(7)));
    assert_eq!(
        create_wrapped_mint(&c).unwrap_err().message(),
        format!(
            "the wrapped mint is already set to {} — this instruction runs once",
            text(7)
        )
    );
}

#[test]
fn a_handover_is_accepted_by_the_nominated_key_only() {
    assert_eq!(
        accept_admin(&config(), &key(2)).unwrap_err().message(),
        "no admin handover is pending"
    );
    let mut c = config();
    c.pending_admin = Some(key(2));
    assert_eq!(accept_admin(&c, &key(2)), Ok(()));
    assert_eq!(
        accept_admin(&c, &key(3)).unwrap_err().message(),
        format!(
            "the pending admin is {}, but GLC_ADMIN_KEYPAIR_PATH holds {} — this command must be run by the INCOMING admin",
            text(2),
            text(3)
        )
    );
}

#[test]
fn an_action_is_held_to_its_effect() {
    let mut c = config();
    c.wrapped_mint = key(7);
    c.pending_admin = Some(key(2));
    assert!(Expectation::Paused(false).holds(&c));
    assert!(!Expectation::Paused(true).holds(&c));
    assert!(Expectation::Cap(100).holds(&c));
    assert!(!Expectation::Cap(99).holds(&c));
    assert!(Expectation::Mint(key(7)).holds(&c));
    assert!(!Expectation::Mint(Pubkey::default()).holds(&config()));
    assert!(Expectation::Nominated(key(2)).holds(&c));
    assert!(!Expectation::Nominated(key(1)).holds(&c));
    assert!(!Expectation::Nominated(key(2)).holds(&config()));
    assert!(!Expectation::Admin(key(1)).holds(&c));
    assert!(Expectation::Admin(key(1)).holds(&config()));
}

#[test]
fn a_contradiction_and_an_unread_result_are_told_apart() {
    assert_eq!(verify_postcondition("pause", "paused", Ok(true)), Ok(()));
    assert_eq!(
        verify_postcondition("pause", "paused", Ok(false)),
        Err("pause confirmed on chain, but the expected result was NOT observed: paused. This is a contradiction — the transaction succeeded yet the state does not reflect it. Do not retry blindly; inspect with `glc-admin show-config`.".to_string())
    );
    assert_eq!(
        verify_postcondition("pause", "paused", Err("down".to_string())),
        Err("pause confirmed on chain, but its result could not be read back (paused): down. The action most likely took effect; confirm with `glc-admin show-config` before retrying.".to_string())
    );
}

#[test]
fn an_unconfirmed_action_is_reported_with_its_reason() {
    let signature = Signature { bytes: [7; 64] };
    let name = solana_sdk::signature::Signature::from([7u8; 64]).to_string();
    let timed_out = ConfirmFailure::TimedOut {
        signature,
        waited: Duration::from_millis(90_500),
    };
    assert_eq!(
        timed_out.message(),
        format!("transaction {name} was neither confirmed nor expired within 90.5s; its outcome is UNKNOWN — read the on-chain state back before retrying")
    );
    assert_eq!(
        ConfirmFailure::Expired { signature }.message(),
        format!("transaction {name} expired before it confirmed (its blockhash is no longer valid); nothing it would have done has taken effect")
    );
    assert_eq!(
        ConfirmFailure::Rejected {
            signature,
            reason: "no".to_string()
        }
        .message(),
        format!("transaction {name} was rejected on chain: no")
    );
    assert_eq!(
        ConfirmFailure::Rpc {
            signature,
            source: SolanaRpcError::Method("x".to_string())
        }
        .message(),
        format!("could not determine the fate of transaction {name}: Solana RPC returned an error: x")
    );
    assert_eq!(
        confirm("pause", "Finalized", &ConfirmFailure::Expired { signature }),
        format!(
            "pause did NOT take effect.\n  signature:  {name}\n  commitment: Finalized\n  reason:     {}\n\nThe bridge is in whatever state it was before this command. Verify with `glc-admin show-config` before retrying.",
            ConfirmFailure::Expired { signature }.message()
        )
    );
}

#[test]
fn a_closed_account_means_that_nothing_is_pending() {
    assert_eq!(pending_action(None), Ok(None));
    assert_eq!(pending_action(Some(&[])), Ok(None));
    assert!(matches!(
        pending_action(Some(&[1, 2, 3])),
        Err(SolanaRpcError::Malformed(_))
    ));
}

fn vault() -> MultisigVault {
    MultisigVault {
        threshold: 2,
        signer_pubkeys: vec![[2; 33], [3; 33]],
        redeem_script: vec![0xaa; 71],
        script_hash160: [0x77; 20],
        address: "Qvault".to_string(),
    }
}

fn withdrawal_config() -> WithdrawalConfig {
    WithdrawalConfig {
        vault: vault(),
        vault_address: "Qvault".to_string(),
        change_address: "Qvault".to_string(),
        change_hash160: [0x77; 20],
        fee_rate_per_kb: 10_000,
        dust_threshold_atomic: 5_400,
        vault_min_confirmations: 1,
        confirmation_depth: 6,
        max_inputs_per_payout: 20,
        reservation_timeout_secs: 900,
    }
}

fn payout(is_signed: bool, change_atomic: u64) -> Option<PayoutSigning> {
    Some(PayoutSigning {
        is_signed,
        txid_hex: None,
        quorum_attempt: 4,
        amounts: Amounts {
            payout_atomic: 1_000,
            fee_atomic: 20,
            change_atomic,
        },
    })
}

fn withdrawal() -> Option<WithdrawalRow> {
    Some(WithdrawalRow {
        withdrawal_index: 3,
        state: WithdrawalState::Signing,
        protocol_version: 1,
        glc_address: "mdest".to_string(),
        glc_address_hash160: [0x22; 20],
        amount_atomic: 1_000,
    })
}

#[test]
fn positions_are_read_from_a_list() {
    assert_eq!(parse_quorum("0, 2,255"), Ok(vec![0, 2, 255]));
    let e = parse_quorum("0,256").unwrap_err();
    assert_eq!(
        e,
        AdminRefusal::NotAPosition {
            item: "256".to_string(),
            why: NumberError::TooLarge
        }
    );
    assert_eq!(
        e.message(),
        "\"256\": number too large to fit in target type"
    );
}

#[test]
fn an_unsigned_payout_gets_new_signers() {
    let c = withdrawal_config();
    let anew = |change: u64| {
        let p = payout(false, change);
        reassign_quorum(&c, 3, vec![1, 0], Ok(()), &p, &withdrawal(), vault_rows()).unwrap()
    };
    let r = anew(9);
    assert_eq!(r.quorum_indices, vec![1, 0]);
    assert_eq!(r.quorum_attempt, 5);
    assert_eq!(r.change_hash160, [0x77; 20]);
    assert_eq!(r.payout_atomic, 1_000);
    assert_eq!(r.fee_atomic, 20);
    assert_eq!(r.change_atomic, 9);
    assert_eq!(r.dest_hash160, [0x22; 20]);
    assert_eq!(anew(0).change_hash160, [0; 20]);
}

#[test]
fn new_signers_agree_on_the_same_payment() {
    let c = withdrawal_config();
    let w = withdrawal();
    let amounts = Amounts {
        payout_atomic: 1_000,
        fee_atomic: 20,
        change_atomic: 9,
    };
    let mut before =
        payout_intent(&c, 3, w.as_ref().unwrap(), amounts, 4, vec![0, 2], vault_rows());
    let after =
        reassign_quorum(&c, 3, vec![1, 0], Ok(()), &payout(false, 9), &w, vault_rows()).unwrap();
    assert_ne!(before, after);
    before.quorum_attempt = 5;
    before.quorum_indices = vec![1, 0];
    assert_eq!(before, after);
}

#[test]
fn a_payout_that_cannot_be_reassigned_stays() {
    let c = withdrawal_config();
    let refused = |valid: Result<(), String>, p: Option<PayoutSigning>, there: bool| {
        let w = if there { withdrawal() } else { None };
        reassign_quorum(&c, 3, vec![1, 0], valid, &p, &w, vault_rows())
            .unwrap_err()
            .message()
    };
    assert_eq!(
        refused(Err("too few".to_string()), payout(false, 0), true),
        "the proposed quorum is not valid for this vault: too few"
    );
    assert_eq!(refused(Ok(()), None, true), "no payout for withdrawal 3");
    assert_eq!(
        refused(Ok(()), payout(false, 0), false),
        "no withdrawal with index 3"
    );
    assert_eq!(
        refused(Ok(()), payout(true, 0), true),
        "withdrawal 3 is already signed (txid unknown) — rebroadcast it rather than reassigning; reassignment changes the txid"
    );
    let mut signed = payout(true, 0);
    if let Some(p) = &mut signed {
        p.txid_hex = Some("ab".to_string());
    }
    assert!(refused(Ok(()), signed, true).contains("(txid ab)"));
}

fn vault_rows() -> Vec<VaultUtxo> {
    vec![VaultUtxo {
        txid: [1; 32],
        txid_hex: encode(&[1; 32]),
        vout: 3,
        amount_atomic: 1_000_000,
        script_pubkey_hex: vault().script_pubkey_hex(),
        confirmations: 10,
    }]
}

fn approve_sweep(dest: &str, rows: &[VaultUtxo], commitment: &str) -> Result<SweepApproval, String> {
    sweep_approve(
        &withdrawal_config(),
        dest,
        "Qdest",
        rows,
        1,
        commitment,
        1_000,
        "why".to_string(),
    )
    .map_err(|e| e.message())
}

#[test]
fn a_sweep_is_approved_only_where_the_commitments_agree() {
    let dest = encode(&[0x22; 20]);
    let plan = build_plan(&withdrawal_config(), &dest, "Qdest", &vault_rows()).unwrap();
    assert_eq!(plan, self::plan());
    let commitment = plan.commitment(1);
    let a = approve_sweep(&dest, &vault_rows(), &encode(&commitment)).unwrap();
    assert_eq!(a.commitment, commitment);
    assert_eq!(a.expiry_unix, 1_000 + 6 * 60 * 60);
    assert_eq!(a.note, "why");
    let e = approve_sweep(&dest, &vault_rows(), &encode(&[2; 32])).unwrap_err();
    assert!(e.starts_with(&format!(
        "REFUSING TO STAGE: the sweep this operator can build commits to\n  {}\nbut the approval names\n  {}\n",
        encode(&commitment),
        encode(&[2; 32])
    )));
}

#[test]
fn an_approval_names_what_is_wrong_with_it() {
    let dest = encode(&[0x22; 20]);
    let commitment = encode(&[2; 32]);
    assert_eq!(
        approve_sweep("zz", &vault_rows(), &commitment),
        Err("--dest-hash160 is not 20 hex bytes: not hexadecimal".to_string())
    );
    assert_eq!(
        approve_sweep(&dest, &vault_rows(), "abcd"),
        Err("--commitment is not 32 hex bytes: wrong number of bytes".to_string())
    );
    assert_eq!(
        approve_sweep(&dest, &[], &commitment),
        Err("cannot plan this sweep: the vault holds no spendable outputs at the required confirmation depth".to_string())
    );
    assert_eq!(outputs_left_behind(5, 3), 2);
    assert_eq!(outputs_left_behind(3, 5), 0);
}

fn metadata() -> TokenMetadataSnapshot {
    TokenMetadataSnapshot {
        update_authority: key(6),
        mint: key(7),
        name: "Wrapped Goldcoin".to_string(),
        symbol: "wGLC".to_string(),
        uri: "u".to_string(),
    }
}

fn metadata_bytes(name: &str) -> Vec<u8> {
    let mut d = vec![4u8];
    d.extend_from_slice(&[6; 32]);
    d.extend_from_slice(&[7; 32]);
    for s in [name, "wGLC", "u"] {
        d.extend_from_slice(&(s.len() as u32).to_le_bytes());
        d.extend_from_slice(s.as_bytes());
    }
    d
}

#[test]
fn metadata_that_exists_is_not_written() {
    let (program, admin, mint) = (key(9), key(1), key(7));
    let create = MetadataStep::Create(create_token_metadata_instruction(
        &program, &admin, &mint, "u",
    ));
    assert_eq!(token_metadata(&program, &admin, &mint, "u", None), create);
    assert_eq!(
        token_metadata(&program, &admin, &mint, "u", Some(&[])),
        create
    );
    assert_eq!(
        token_metadata(&program, &admin, &mint, "u", Some(&[4])),
        MetadataStep::Verify
    );
    assert_eq!(wanted_uri(None), WRAPPED_GLC_URI);
    assert_eq!(wanted_uri(Some(String::new())), "");
}

#[test]
fn metadata_is_accepted_only_where_all_of_it_is_the_bridges() {
    assert_eq!(
        verify_token_metadata(Some(&metadata_bytes("Wrapped Goldcoin")), &key(7), &key(6)),
        Ok(metadata())
    );
    assert_eq!(
        verify_token_metadata(None, &key(7), &key(6)),
        Err(MetadataFailure::Absent)
    );
    assert!(matches!(
        verify_token_metadata(Some(&[1]), &key(7), &key(6)),
        Err(MetadataFailure::Unreadable(_))
    ));
    assert_eq!(
        verify_token_metadata(Some(&metadata_bytes("Goldcoin")), &key(7), &key(6)),
        Err(MetadataFailure::Wrong(vec![MetadataProblem::Name(
            "Goldcoin".to_string()
        )]))
    );
}

#[test]
fn every_problem_of_metadata_is_listed() {
    let mut m = metadata();
    m.name = "X".to_string();
    m.symbol = "Y".to_string();
    let found = check_metadata(&m, &key(8), &key(9));
    assert_eq!(
        problems_message(&found),
        format!(
            "the on-chain metadata is NOT what this bridge expects:\
             \n  - name is \"X\", expected \"Wrapped Goldcoin\"\
             \n  - symbol is \"Y\", expected \"wGLC\"\
             \n  - metadata names mint {}, not {}\
             \n  - update authority is {}, not the program's mint-authority PDA {}",
            text(7),
            text(8),
            text(6),
            text(9)
        )
    );
    assert_eq!(check_metadata(&metadata(), &key(7), &key(6)), vec![]);
}

#[test]
fn what_is_not_stated_stays_as_it_is() {
    let (program, admin, mint) = (key(9), key(1), key(7));
    let same = updated_values(&metadata(), None, None, None);
    assert_eq!(
        update_token_metadata(&program, &admin, &mint, &metadata(), &same),
        UpdateStep::Unchanged
    );
    let moved = updated_values(&metadata(), None, None, Some("v".to_string()));
    assert_eq!(moved.name, "Wrapped Goldcoin");
    assert_eq!(
        update_token_metadata(&program, &admin, &mint, &metadata(), &moved),
        UpdateStep::Submit(update_token_metadata_instruction(
            &program,
            &admin,
            &mint,
            "Wrapped Goldcoin",
            "wGLC",
            "v"
        ))
    );
    assert_eq!(
        verify_update(&metadata(), &moved, &mint),
        Err(UpdateFailure::NotWritten)
    );
    let mut after = metadata();
    after.uri = "v".to_string();
    assert_eq!(verify_update(&after, &moved, &mint), Ok(()));
    assert_eq!(
        verify_update(&after, &moved, &key(8)),
        Err(UpdateFailure::OtherMint)
    );
}

fn plan() -> SweepPlan {
    plan_sweep(
        [0x77; 20],
        SweepDestination::p2sh([0x22; 20], "Qdest".to_string()),
        &vault_rows(),
        10_000,
        5_400,
        20,
        vault().input_bytes(),
    )
    .unwrap()
}

fn sweep_tx(value: u64) -> Transaction {
    let p = plan();
    Transaction {
        version: 1,
        inputs: vec![TxInput {
            prev_txid: internal_txid(&p.inputs[0].txid),
            prev_vout: 3,
            script_sig: Vec::new(),
            sequence: 0xffff_ffff,
        }],
        outputs: vec![TxOutput {
            value,
            script_pubkey: p.dest_script_pubkey.clone(),
        }],
        lock_time: 0,
    }
}

fn partial(b: u8) -> PartialSignature {
    PartialSignature {
        vault_pubkey: [b; 33],
        signatures: vec![vec![1]],
    }
}

fn after_construction() -> SweepStep {
    let p = plan();
    sweep_execute(
        &p,
        2,
        start_sweep(&p),
        SweepEvent::Constructed(Ok(("00".to_string(), Ok(sweep_tx(p.swept_atomic))))),
    )
}

#[test]
fn what_an_operator_approves_a_validator_signs() {
    let p = plan();
    let commitment = p.commitment(1);
    let approval = approve_sweep(
        &encode(&[0x22; 20]),
        &vault_rows(),
        &encode(&commitment),
    )
    .unwrap();
    let store = StoreRead::Text(approval.to_text());
    let mut view = SweepView::new(withdrawal_config(), 1).unwrap();
    let authorised = view
        .sign_sweep(Ok(&vault_rows()[..]), Ok(&sweep_tx(p.swept_atomic)), &store, 1, 1_001)
        .unwrap();
    assert_eq!(authorised.plan.commitment(1), commitment);
    assert_eq!(view.signed, Some(commitment));
    let answer = view.finish_sweep(&authorised.plan, SigningReply::Signed(vec![vec![1]])).unwrap();
    assert_eq!(answer.partial.vault_pubkey, [3; 33]);
    assert_eq!(answer.swept_atomic, p.swept_atomic);
    assert!(view
        .sign_sweep(Ok(&vault_rows()[..]), Ok(&sweep_tx(p.swept_atomic)), &store, 1, i64::MAX)
        .is_err());
}

#[test]
fn a_sweep_asks_every_signer_of_the_vault() {
    let signers = sweep_signers(&[key(1), key(2), key(3)], &vault());
    assert_eq!(signers.len(), 2);
    assert_eq!(signers[1].validator_pubkey, key(2));
    assert_eq!(signers[1].vault_pubkey, [3; 33]);
}

#[test]
fn a_sweep_is_constructed_signed_and_sent() {
    let p = plan();
    assert_eq!(
        start_sweep(&p),
        SweepStep::Construct {
            inputs: vec![(encode(&[1; 32]), 3)],
            outputs: vec![("Qdest".to_string(), p.swept_atomic)],
        }
    );
    let step = after_construction();
    assert!(matches!(step, SweepStep::Collect { .. }));
    let step = sweep_execute(
        &p,
        2,
        step,
        SweepEvent::Partials(vec![partial(2), partial(3)]),
    );
    assert!(matches!(step, SweepStep::Assemble { .. }));
    let signed = || AssembledTx {
        signed_tx_hex: "beef".to_string(),
        txid_hex: "ab".to_string(),
    };
    let step = sweep_execute(&p, 2, step, SweepEvent::Assembled(Ok(signed())));
    assert_eq!(step, SweepStep::Send(signed()));
    let sent = |outcome| {
        sweep_execute(
            &p,
            2,
            SweepStep::Send(signed()),
            SweepEvent::Sent(outcome),
        )
    };
    assert_eq!(
        sent(Ok(BroadcastOutcome::Accepted {
            txid: "ab".to_string()
        })),
        SweepStep::Done(Ok(SweepOutcome::Broadcast {
            txid: "ab".to_string()
        }))
    );
    assert_eq!(
        sent(Ok(BroadcastOutcome::AlreadyInChain)),
        SweepStep::Done(Ok(SweepOutcome::AlreadyInChain))
    );
    assert_eq!(
        sent(Ok(BroadcastOutcome::MissingInputs)),
        SweepStep::Done(Err(SweepFailure::InputsGone))
    );
    assert_eq!(
        sent(Err(RpcError::Method("x".to_string()))),
        SweepStep::Done(Err(SweepFailure::Node(RpcError::Method("x".to_string()))))
    );
}

#[test]
fn anything_but_the_planned_sweep_is_not_put_to_the_signers() {
    let p = plan();
    let made = |event| sweep_execute(&p, 2, start_sweep(&p), SweepEvent::Constructed(event));
    assert_eq!(
        made(Ok(("00".to_string(), Ok(sweep_tx(p.swept_atomic - 1))))),
        SweepStep::Done(Err(SweepFailure::NotThePlan(SweepError::WrongAmount {
            expected: p.swept_atomic,
            found: p.swept_atomic - 1
        })))
    );
    assert_eq!(
        made(Ok(("zz".to_string(), Err("not hex".to_string())))),
        SweepStep::Done(Err(SweepFailure::Unparseable("not hex".to_string())))
    );
    assert_eq!(
        made(Err(RpcError::Transport("down".to_string()))),
        SweepStep::Done(Err(SweepFailure::Node(RpcError::Transport(
            "down".to_string()
        ))))
    );
    assert_eq!(
        sweep_execute(
            &p,
            2,
            after_construction(),
            SweepEvent::Partials(vec![partial(2)])
        ),
        SweepStep::Done(Err(SweepFailure::TooFewApprovals { have: 1, need: 2 }))
    );
    let assemble = sweep_execute(
        &p,
        2,
        after_construction(),
        SweepEvent::Partials(vec![partial(2), partial(3)]),
    );
    assert_eq!(
        sweep_execute(
            &p,
            2,
            assemble,
            SweepEvent::Assembled(Err("stranger".to_string()))
        ),
        SweepStep::Done(Err(SweepFailure::Assembly("stranger".to_string())))
    );
    assert_eq!(
        sweep_execute(&p, 2, start_sweep(&p), SweepEvent::Partials(vec![])),
        start_sweep(&p)
    );
}
