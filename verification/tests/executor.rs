//! The withdrawal executor, step by step.

use glc_bridge::glc::hex::encode;
use glc_bridge::glc::rpc::{BroadcastOutcome, RpcError};
use glc_bridge::glc::withdrawal_db::{
    SignablePayout, VaultUtxo, WithdrawalRow, WithdrawalState,
};
use glc_bridge::withdrawal::address::{encode_p2pkh, AddressError};
use glc_bridge::withdrawal::broadcast::{
    BroadcastEvent, BroadcastStep, ReconcileEvent, ReconcileStep,
};
use glc_bridge::withdrawal::builder::DecodedTx;
use glc_bridge::withdrawal::building::{BuildEvent, BuildStep, Committed, Constructed};
use glc_bridge::withdrawal::coin::fee_for;
use glc_bridge::withdrawal::config::WithdrawalConfig;
use glc_bridge::withdrawal::executor::{
    classify, decoded_tx, expected_output_scripts, outpoints, ExecutorError, Note, TickTask,
    Transition, TxStatus, WithdrawalExecutor, WithdrawalTickReport,
};
use glc_bridge::withdrawal::multisig::PartialSignature;
use glc_bridge::withdrawal::signing::{AssembledTx, AssemblyFailure, SignEvent, SignStep};
use glc_bridge::withdrawal::vault::MultisigVault;

fn vault() -> MultisigVault {
    MultisigVault {
        threshold: 2,
        signer_pubkeys: vec![[2; 33], [3; 33], [4; 33]],
        redeem_script: vec![0xaa; 105],
        script_hash160: [0x77; 20],
        address: "Qvault".to_string(),
    }
}

fn executor() -> WithdrawalExecutor {
    WithdrawalExecutor::new(WithdrawalConfig {
        vault: vault(),
        vault_address: "Qvault".to_string(),
        change_address: "Qvault".to_string(),
        change_hash160: [0x77; 20],
        fee_rate_per_kb: 10_000,
        dust_threshold_atomic: 5_400,
        vault_min_confirmations: 1,
        confirmation_depth: 6,
        max_inputs_per_payout: 20,
        reservation_timeout_secs: 900,
    })
}

fn row(state: WithdrawalState) -> WithdrawalRow {
    WithdrawalRow {
        withdrawal_index: 4,
        state,
        protocol_version: 1,
        glc_address: encode_p2pkh(&[0x22; 20]),
        glc_address_hash160: [0x22; 20],
        amount_atomic: 1_000_000,
    }
}

fn utxo(seed: u8, amount: u64) -> VaultUtxo {
    VaultUtxo {
        txid: [seed; 32],
        txid_hex: encode(&[seed; 32]),
        vout: seed as i64,
        amount_atomic: amount,
        script_pubkey_hex: vault().script_pubkey_hex(),
        confirmations: 10,
    }
}

fn moved(state: WithdrawalState) -> Transition {
    Transition { state, note: None }
}

fn noted(state: WithdrawalState, note: Note) -> Transition {
    Transition {
        state,
        note: Some(note),
    }
}

fn count(step: &impl Counted) -> WithdrawalTickReport {
    let mut report = WithdrawalTickReport::default();
    step.count_in(&mut report);
    report
}

trait Counted {
    fn count_in(&self, report: &mut WithdrawalTickReport);
}
impl Counted for BuildStep {
    fn count_in(&self, report: &mut WithdrawalTickReport) {
        self.count(report)
    }
}
impl Counted for SignStep {
    fn count_in(&self, report: &mut WithdrawalTickReport) {
        self.count(report)
    }
}
impl Counted for BroadcastStep {
    fn count_in(&self, report: &mut WithdrawalTickReport) {
        self.count(report)
    }
}
impl Counted for ReconcileStep {
    fn count_in(&self, report: &mut WithdrawalTickReport) {
        self.count(report)
    }
}

#[test]
fn a_sound_withdrawal_validates() {
    let mut report = WithdrawalTickReport::default();
    let t = executor().validate(&row(WithdrawalState::Observed), &mut report);
    assert_eq!(t, moved(WithdrawalState::Validated));
    assert_eq!(report.validated, 1);
    assert_eq!(report.failed + report.halted, 0);
}

#[test]
fn an_address_that_no_longer_decodes_fails_the_withdrawal() {
    let mut report = WithdrawalTickReport::default();
    let mut w = row(WithdrawalState::Observed);
    w.glc_address = "not-an-address".to_string();
    let t = executor().validate(&w, &mut report);
    assert_eq!(
        t,
        noted(
            WithdrawalState::Failed,
            Note::UndecodableAddress(AddressError::NotBase58)
        )
    );
    assert!(t
        .note
        .unwrap()
        .message()
        .starts_with("undecodable destination address: "));
    assert_eq!(report.failed, 1);
}

#[test]
fn an_address_that_decodes_elsewhere_halts_the_withdrawal() {
    let mut report = WithdrawalTickReport::default();
    let mut w = row(WithdrawalState::Observed);
    w.glc_address_hash160 = [0x23; 20];
    let t = executor().validate(&w, &mut report);
    assert_eq!(
        t,
        noted(WithdrawalState::IntegrityHalted, Note::AddressMismatch)
    );
    assert_eq!(report.halted, 1);
}

#[test]
fn an_amount_below_dust_fails_and_dust_itself_is_paid() {
    let mut report = WithdrawalTickReport::default();
    let mut w = row(WithdrawalState::Observed);
    w.amount_atomic = 5_399;
    assert_eq!(
        executor().validate(&w, &mut report),
        noted(WithdrawalState::Failed, Note::BelowDust)
    );
    w.amount_atomic = 5_400;
    assert_eq!(
        executor().judge(&w, Ok([0x22; 20]), &mut report),
        moved(WithdrawalState::Validated)
    );
    assert_eq!((report.failed, report.validated), (1, 1));
}

#[test]
fn a_pass_reconciles_before_it_acts() {
    let tasks = executor().tick();
    assert_eq!(tasks.len(), 10);
    assert_eq!(tasks[0], TickTask::SyncVault);
    assert_eq!(tasks[2], TickTask::Reconcile(WithdrawalState::Broadcast));
    assert_eq!(tasks[3], TickTask::Reconcile(WithdrawalState::Confirming));
    assert_eq!(tasks[4], TickTask::Rebroadcast(WithdrawalState::Orphaned));
    assert_eq!(tasks[6], TickTask::Build(WithdrawalState::AwaitingFunds));
    assert_eq!(tasks[9], TickTask::BroadcastNew);
}

#[test]
fn only_a_federation_waits_for_its_designated_builder() {
    assert!(executor().may_build(false));
    let member = executor().with_assignment();
    assert!(!member.may_build(false));
    assert!(member.may_build(true));
}

#[test]
fn an_unreadable_chain_never_permits_a_broadcast() {
    let unchecked = executor();
    assert!(unchecked.safe_to_broadcast(&Err("down".to_string())));
    let checked = executor().with_onchain_status();
    assert!(checked.safe_to_broadcast(&Ok(false)));
    assert!(!checked.safe_to_broadcast(&Ok(true)));
    assert!(!checked.safe_to_broadcast(&Err("down".to_string())));
}

#[test]
fn recording_stops_at_the_first_withdrawal_that_cannot_be_recorded() {
    let e = executor();
    assert_eq!(e.next_discovered(3, &[]), Some(0));
    assert_eq!(e.next_discovered(3, &[Ok(true)]), Some(1));
    assert_eq!(e.next_discovered(3, &[Ok(true), Ok(false), Ok(true)]), None);
    let answers = [Ok(true), Err("locked".to_string())];
    assert_eq!(e.next_discovered(3, &answers), None);
    assert_eq!(
        e.ingest_discovered(&answers),
        Err(ExecutorError::Db("locked".to_string()))
    );
    assert_eq!(
        e.ingest_discovered(&[Err("first".to_string()), Err("second".to_string())]),
        Err(ExecutorError::Db("first".to_string()))
    );
}

#[test]
fn reservations_are_reclaimed_before_a_payout_exists() {
    assert_eq!(
        executor().reclaimed_states(),
        vec![
            WithdrawalState::Validated,
            WithdrawalState::AwaitingFunds,
            WithdrawalState::Building
        ]
    );
}

#[test]
fn a_broadcast_payout_is_resolved_at_once() {
    assert!(BroadcastStep::Accepted(None).reconciles());
    assert!(BroadcastStep::InputsGone.reconciles());
    assert!(!BroadcastStep::Stop.reconciles());
    assert!(!BroadcastStep::Load.reconciles());
}

#[test]
fn only_new_withdrawals_are_counted() {
    assert_eq!(
        executor().ingest_discovered(&[Ok(true), Ok(false), Ok(true)]),
        Ok(2)
    );
    assert_eq!(executor().ingest_discovered(&[]), Ok(0));
    assert_eq!(executor().vault_input_bytes(), 299);
    assert_eq!(
        executor().sync_vault(&[utxo(1, 5), utxo(2, 6)]),
        vec![[1; 32], [2; 32]]
    );
}

#[test]
fn a_stale_reservation_is_released_only_without_a_payout() {
    let e = executor();
    assert_eq!(e.reservation_cutoff(1_000), 100);
    assert!(e.reclaim_abandoned_reservations(false, 1, true));
    assert!(!e.reclaim_abandoned_reservations(true, 1, true));
    assert!(!e.reclaim_abandoned_reservations(false, 0, true));
    assert!(!e.reclaim_abandoned_reservations(false, 1, false));
    assert!(e.awaits_broadcast(Some(0)));
    assert!(!e.awaits_broadcast(Some(1)));
    assert!(!e.awaits_broadcast(None));
}

/// Builds up to the construction, from one output that covers the payout.
fn constructed() -> BuildStep {
    let e = executor();
    let w = row(WithdrawalState::AwaitingFunds);
    let step = e.build(
        &w,
        BuildStep::Look,
        BuildEvent::Found {
            has_payout: false,
            candidates: vec![utxo(1, 5_000_000)],
        },
    );
    match &step {
        BuildStep::Reserve { resumed, selection } => {
            assert_eq!(*resumed, Some(moved(WithdrawalState::Validated)));
            assert_eq!(selection.fee_atomic, fee_for(1, 2, 10_000, 299));
        }
        other => panic!("expected a reservation, got {other:?}"),
    }
    e.build(&w, step, BuildEvent::Reserved(true))
}

fn verified() -> BuildEvent {
    BuildEvent::Constructed(Ok(Constructed {
        unsigned_tx_hex: "0100".to_string(),
        verified: Ok(()),
    }))
}

#[test]
fn a_payout_pays_exactly_the_burned_amount() {
    let e = executor();
    let w = row(WithdrawalState::AwaitingFunds);
    let step = constructed();
    let fee = fee_for(1, 2, 10_000, 299);
    match &step {
        BuildStep::Construct {
            building,
            construction,
            ..
        } => {
            assert_eq!(*building, moved(WithdrawalState::Building));
            assert_eq!(
                construction.inputs,
                vec![(encode(&[1u8; 32]), 1i64)]
            );
            assert_eq!(
                construction.outputs,
                vec![
                    (encode_p2pkh(&[0x22; 20]), 1_000_000),
                    ("Qvault".to_string(), 4_000_000 - fee)
                ]
            );
            assert_eq!(construction.plan.payout_atomic, 1_000_000);
            assert_eq!(
                construction.plan.change_script_hex,
                Some(vault().script_pubkey_hex())
            );
        }
        other => panic!("expected a construction, got {other:?}"),
    }
    let step = e.build(&w, step, verified());
    let step = e.build(
        &w,
        step,
        BuildEvent::Designated(Ok(vec![0, 2])),
    );
    match &step {
        BuildStep::Commit { intent, .. } => {
            assert_eq!(intent.protocol_version, 1);
            assert_eq!(intent.withdrawal_index, 4);
            assert_eq!(intent.vault_script_hash, [0x77; 20]);
            assert_eq!(intent.dest_hash160, [0x22; 20]);
            assert_eq!(intent.payout_atomic, 1_000_000);
            assert_eq!(intent.fee_atomic, fee);
            assert_eq!(intent.change_atomic, 4_000_000 - fee);
            assert_eq!(intent.change_hash160, [0x77; 20]);
            assert_eq!(intent.quorum_attempt, 0);
            assert_eq!(intent.quorum_indices, vec![0, 2]);
            assert_eq!(intent.inputs.len(), 1);
        }
        other => panic!("expected an intent, got {other:?}"),
    }
    let step = e.build(
        &w,
        step,
        BuildEvent::Committed(Committed {
            intent: vec![9],
            commitment: [5; 32],
            now: 77,
        }),
    );
    assert_eq!(count(&step).built, 1);
    match step {
        BuildStep::Record { payout, signing } => {
            assert_eq!(signing, moved(WithdrawalState::Signing));
            assert_eq!(payout.withdrawal_index, 4);
            assert_eq!(payout.payout_atomic, 1_000_000);
            assert_eq!(payout.quorum_indices, vec![0, 2]);
            assert_eq!(payout.quorum_attempt, 0);
            assert_eq!(payout.commitment_hash, [5; 32]);
            assert_eq!(payout.intent_bytes, vec![9]);
            assert_eq!(payout.change_address, Some("Qvault".to_string()));
            assert_eq!(payout.unsigned_tx_hex, "0100");
            assert_eq!(payout.built_at, 77);
            let total: u64 = payout.inputs.iter().map(|u| u.amount_atomic).sum();
            assert_eq!(
                total,
                payout.payout_atomic + payout.fee_atomic + payout.change_atomic
            );
        }
        other => panic!("expected a record, got {other:?}"),
    }
}

#[test]
fn an_existing_payout_is_adopted_not_rebuilt() {
    let step = executor().build(
        &row(WithdrawalState::Validated),
        BuildStep::Look,
        BuildEvent::Found {
            has_payout: true,
            candidates: vec![utxo(1, 5_000_000)],
        },
    );
    assert_eq!(step, BuildStep::Adopt(moved(WithdrawalState::Signing)));
    assert_eq!(count(&step), WithdrawalTickReport::default());
}

#[test]
fn a_shortfall_is_recorded_once() {
    let e = executor();
    let found = || BuildEvent::Found {
        has_payout: false,
        candidates: vec![utxo(1, 10)],
    };
    let first = e.build(&row(WithdrawalState::Validated), BuildStep::Look, found());
    assert_eq!(
        first,
        BuildStep::AwaitFunds(Some(noted(
            WithdrawalState::AwaitingFunds,
            Note::InsufficientFunds
        )))
    );
    let again = e.build(
        &row(WithdrawalState::AwaitingFunds),
        BuildStep::Look,
        found(),
    );
    assert_eq!(again, BuildStep::AwaitFunds(None));
    assert_eq!(count(&again).awaiting_funds, 1);
}

#[test]
fn a_lost_reservation_builds_nothing() {
    let e = executor();
    let w = row(WithdrawalState::Validated);
    let step = e.build(
        &w,
        BuildStep::Look,
        BuildEvent::Found {
            has_payout: false,
            candidates: vec![utxo(1, 5_000_000)],
        },
    );
    let step = e.build(&w, step, BuildEvent::Reserved(false));
    assert_eq!(step, BuildStep::LostReservation);
    assert_eq!(count(&step).awaiting_funds, 1);
}

#[test]
fn a_payout_that_fails_verification_halts() {
    let e = executor();
    let w = row(WithdrawalState::AwaitingFunds);
    let step = e.build(
        &w,
        constructed(),
        BuildEvent::Constructed(Ok(Constructed {
            unsigned_tx_hex: "0100".to_string(),
            verified: Err("wrong amount".to_string()),
        })),
    );
    assert_eq!(count(&step).halted, 1);
    match step {
        BuildStep::Halt(t) => {
            assert_eq!(t.state, WithdrawalState::IntegrityHalted);
            assert_eq!(
                t.note.unwrap().message(),
                "output verification failed: wrong amount"
            );
        }
        other => panic!("expected a halt, got {other:?}"),
    }
}

#[test]
fn a_node_that_fails_ends_the_build_with_its_error() {
    let e = executor();
    let w = row(WithdrawalState::AwaitingFunds);
    assert_eq!(
        e.build(
            &w,
            constructed(),
            BuildEvent::Constructed(Err(RpcError::Transport("down".to_string())))
        ),
        BuildStep::Fail(ExecutorError::NodeUnavailable(RpcError::Transport(
            "down".to_string()
        )))
    );
    let designate = e.build(&w, constructed(), verified());
    assert_eq!(
        e.build(
            &w,
            designate,
            BuildEvent::Designated(Err("duplicate index".to_string()))
        ),
        BuildStep::Fail(ExecutorError::Rpc(RpcError::Malformed(
            "duplicate index".to_string()
        )))
    );
}

#[test]
fn an_event_that_was_not_asked_for_changes_nothing() {
    let e = executor();
    let w = row(WithdrawalState::Validated);
    assert_eq!(
        e.build(&w, BuildStep::Look, BuildEvent::Reserved(true)),
        BuildStep::Look
    );
    assert_eq!(
        e.sign(SignStep::Guard, SignEvent::Epoch { epoch: 7, fresh: true }),
        SignStep::Guard
    );
    assert_eq!(
        e.rebroadcast(BroadcastStep::Load, BroadcastEvent::Recorded(None)),
        BroadcastStep::Load
    );
    assert_eq!(
        e.reconcile_broadcast(
            ReconcileStep::Load,
            ReconcileEvent::Recorded(WithdrawalState::Broadcast)
        ),
        ReconcileStep::Load
    );
}

fn signable() -> SignablePayout {
    SignablePayout {
        quorum_attempt: 0,
        intent_bytes: vec![1],
        unsigned_tx_hex: "0100".to_string(),
        quorum_indices: vec![0, 2],
    }
}

fn partial(seed: u8) -> PartialSignature {
    PartialSignature {
        vault_pubkey: [seed; 33],
        signatures: vec![vec![1]],
    }
}

fn assembled() -> AssembledTx {
    AssembledTx {
        signed_tx_hex: "beef".to_string(),
        txid_hex: encode(&[0xab; 32]),
    }
}

fn decoded(txid_hex: &str) -> DecodedTx {
    decoded_tx(txid_hex.to_string(), vec![], vec![])
}

/// Signs up to the assembled transaction.
fn signed_up_to_decoding() -> SignStep {
    let e = executor();
    let step = e.sign(SignStep::Guard, SignEvent::Guarded(Ok(signable())));
    let step = e.sign(step, SignEvent::Epoch { epoch: 7, fresh: true });
    let step = e.sign(step, SignEvent::Partials(vec![partial(2), partial(4)]));
    e.sign(step, SignEvent::Assembled(Ok(assembled())))
}

#[test]
fn a_payout_is_recorded_under_the_id_the_node_agrees_on() {
    let e = executor();
    let step = e.sign(
        signed_up_to_decoding(),
        SignEvent::Decoded(Ok(decoded(&encode(&[0xab; 32])))),
    );
    let step = e.sign(step, SignEvent::Compared(Ok(Ok(()))));
    assert_eq!(
        step,
        SignStep::Record {
            signed_tx_hex: "beef".to_string(),
            txid: [0xab; 32],
        }
    );
    assert_eq!(count(&step).signed, 1);
}

#[test]
fn refused_guards_count_as_halted_and_change_no_state() {
    let step = executor().sign(
        SignStep::Guard,
        SignEvent::Guarded(Err("already signed".to_string())),
    );
    assert_eq!(step, SignStep::Refused);
    assert_eq!(count(&step).halted, 1);
}

#[test]
fn a_stale_epoch_and_a_shortfall_only_wait() {
    let e = executor();
    let step = e.sign(SignStep::Guard, SignEvent::Guarded(Ok(signable())));
    assert_eq!(e.sign(step, SignEvent::Epoch { epoch: 7, fresh: false }), SignStep::Wait);

    let step = e.sign(SignStep::Guard, SignEvent::Guarded(Ok(signable())));
    let step = e.sign(step, SignEvent::Epoch { epoch: 7, fresh: true });
    assert_eq!(
        step,
        SignStep::Collect {
            payout: signable(),
            epoch: 7
        }
    );
    let step = e.sign(step, SignEvent::Partials(vec![partial(2)]));
    assert_eq!(step, SignStep::Wait);
    assert_eq!(count(&step), WithdrawalTickReport::default());
}

#[test]
fn partials_that_do_not_assemble_halt() {
    let e = executor();
    let assemble = || {
        let step = e.sign(SignStep::Guard, SignEvent::Guarded(Ok(signable())));
        let step = e.sign(step, SignEvent::Epoch { epoch: 7, fresh: true });
        e.sign(step, SignEvent::Partials(vec![partial(2), partial(4)]))
    };
    let step = e.sign(
        assemble(),
        SignEvent::Assembled(Err(AssemblyFailure::Assembly("stranger".to_string()))),
    );
    assert_eq!(
        step,
        SignStep::Halt(noted(
            WithdrawalState::IntegrityHalted,
            Note::Assembly("stranger".to_string())
        ))
    );
    assert_eq!(count(&step).halted, 1);
    assert_eq!(
        e.sign(
            assemble(),
            SignEvent::Assembled(Err(AssemblyFailure::Parse("short".to_string())))
        ),
        SignStep::Fail(ExecutorError::Assembly("short".to_string()))
    );
}

#[test]
fn a_transaction_id_that_the_node_disputes_halts() {
    let step = executor().sign(
        signed_up_to_decoding(),
        SignEvent::Decoded(Ok(decoded(&encode(&[0xac; 32])))),
    );
    assert_eq!(
        step,
        SignStep::Halt(noted(WithdrawalState::IntegrityHalted, Note::TxidDisagrees))
    );
    assert_eq!(
        Note::TxidDisagrees.message(),
        "assembled txid disagrees with the node's decoding"
    );
}

#[test]
fn altered_outputs_halt_and_a_bad_id_fails() {
    let e = executor();
    let compare = |txid: &str| {
        let step = e.sign(SignStep::Guard, SignEvent::Guarded(Ok(signable())));
        let step = e.sign(step, SignEvent::Epoch { epoch: 7, fresh: true });
        let step = e.sign(step, SignEvent::Partials(vec![partial(2), partial(4)]));
        let step = e.sign(
            step,
            SignEvent::Assembled(Ok(AssembledTx {
                signed_tx_hex: "beef".to_string(),
                txid_hex: txid.to_string(),
            })),
        );
        e.sign(step, SignEvent::Decoded(Ok(decoded(txid))))
    };
    let good = encode(&[0xab; 32]);
    assert_eq!(
        e.sign(
            compare(&good),
            SignEvent::Compared(Ok(Err("output 0 changed".to_string())))
        ),
        SignStep::Halt(noted(
            WithdrawalState::IntegrityHalted,
            Note::OutputsAltered("output 0 changed".to_string())
        ))
    );
    assert_eq!(
        e.sign(
            compare(&good),
            SignEvent::Compared(Err(RpcError::Method("no".to_string())))
        ),
        SignStep::Fail(ExecutorError::Rpc(RpcError::Method("no".to_string())))
    );
    assert_eq!(
        e.sign(compare("zz"), SignEvent::Compared(Ok(Ok(())))),
        SignStep::Fail(ExecutorError::Rpc(RpcError::Malformed(
            "not hexadecimal".to_string()
        )))
    );
    assert_eq!(
        e.sign(compare("abcd"), SignEvent::Compared(Ok(Ok(())))),
        SignStep::Fail(ExecutorError::Rpc(RpcError::Malformed(
            "wrong number of bytes".to_string()
        )))
    );
}

#[test]
fn a_completed_withdrawal_is_never_broadcast() {
    let e = executor().with_onchain_status();
    let ask = || {
        e.rebroadcast(
            BroadcastStep::Load,
            BroadcastEvent::Loaded(Some("beef".to_string())),
        )
    };
    assert_eq!(
        ask(),
        BroadcastStep::AskSolana {
            signed_tx_hex: "beef".to_string()
        }
    );
    assert_eq!(
        e.rebroadcast(ask(), BroadcastEvent::Completed(Ok(true))),
        BroadcastStep::Stop
    );
    assert_eq!(
        e.rebroadcast(ask(), BroadcastEvent::Completed(Err("down".to_string()))),
        BroadcastStep::Stop
    );
    assert_eq!(
        e.rebroadcast(ask(), BroadcastEvent::Completed(Ok(false))),
        BroadcastStep::Send {
            signed_tx_hex: "beef".to_string()
        }
    );
    assert_eq!(
        e.rebroadcast(BroadcastStep::Load, BroadcastEvent::Loaded(None)),
        BroadcastStep::Stop
    );
}

#[test]
fn an_orphaned_payout_returns_to_broadcast() {
    let e = executor();
    let send = || {
        e.rebroadcast(
            BroadcastStep::Load,
            BroadcastEvent::Loaded(Some("beef".to_string())),
        )
    };
    let step = e.rebroadcast(
        send(),
        BroadcastEvent::Sent(Ok(BroadcastOutcome::Accepted {
            txid: "ab".to_string(),
        })),
    );
    assert_eq!(step, BroadcastStep::Record);
    let step = e.rebroadcast(
        step,
        BroadcastEvent::Recorded(Some(WithdrawalState::Orphaned)),
    );
    assert_eq!(
        step,
        BroadcastStep::Accepted(Some(noted(WithdrawalState::Broadcast, Note::Rebroadcast)))
    );
    assert_eq!(count(&step).broadcast, 1);

    let step = e.rebroadcast(
        send(),
        BroadcastEvent::Sent(Ok(BroadcastOutcome::AlreadyInChain)),
    );
    let step = e.rebroadcast(
        step,
        BroadcastEvent::Recorded(Some(WithdrawalState::Broadcast)),
    );
    assert_eq!(step, BroadcastStep::Accepted(None));

    let step = e.rebroadcast(
        send(),
        BroadcastEvent::Sent(Ok(BroadcastOutcome::MissingInputs)),
    );
    assert_eq!(step, BroadcastStep::InputsGone);
    assert_eq!(count(&step), WithdrawalTickReport::default());
    assert_eq!(
        e.rebroadcast(
            send(),
            BroadcastEvent::Sent(Err(RpcError::Method("no".to_string())))
        ),
        BroadcastStep::Fail(ExecutorError::Rpc(RpcError::Method("no".to_string())))
    );
}

fn status(confirmations: i64, block: Option<&str>) -> TxStatus {
    TxStatus {
        confirmations,
        block_hash_hex: block.map(|b| b.to_string()),
        block_height: None,
    }
}

fn asked() -> ReconcileStep {
    executor().reconcile_broadcast(
        ReconcileStep::Load,
        ReconcileEvent::Loaded(Some("ab".to_string())),
    )
}

#[test]
fn a_payout_completes_at_its_depth_and_not_before() {
    let e = executor();
    for (confirmations, complete) in [(5, false), (6, true), (7, true)] {
        let step = e.reconcile_broadcast(
            asked(),
            ReconcileEvent::Status(Ok(Some(status(confirmations, Some("aa"))))),
        );
        let step = e.reconcile_broadcast(step, ReconcileEvent::OnMainChain(Ok(true)));
        let step =
            e.reconcile_broadcast(step, ReconcileEvent::Recorded(WithdrawalState::Broadcast));
        assert_eq!(
            step,
            ReconcileStep::Settle {
                confirming: Some(moved(WithdrawalState::Confirming)),
                complete,
            }
        );
        let report = count(&step);
        assert_eq!(report.completed, complete as u32);
        assert_eq!(report.confirming, !complete as u32);
    }
}

#[test]
fn an_unknown_or_reorganised_payout_is_orphaned() {
    let e = executor();
    let step = e.reconcile_broadcast(asked(), ReconcileEvent::Status(Ok(None)));
    assert_eq!(
        step,
        ReconcileStep::Orphan(noted(WithdrawalState::Orphaned, Note::UnknownToNode))
    );
    assert_eq!(count(&step).orphaned, 1);

    let step = e.reconcile_broadcast(
        asked(),
        ReconcileEvent::Status(Ok(Some(status(9, Some("aa"))))),
    );
    let step = e.reconcile_broadcast(step, ReconcileEvent::OnMainChain(Ok(false)));
    assert_eq!(
        step,
        ReconcileStep::Orphan(noted(WithdrawalState::Orphaned, Note::ReorgedAway))
    );
}

#[test]
fn a_payout_in_the_mempool_is_confirming() {
    let e = executor();
    let step = e.reconcile_broadcast(asked(), ReconcileEvent::Status(Ok(Some(status(0, None)))));
    assert_eq!(step, ReconcileStep::Record(status(0, None)));
    let step = e.reconcile_broadcast(step, ReconcileEvent::Recorded(WithdrawalState::Confirming));
    assert_eq!(
        step,
        ReconcileStep::Settle {
            confirming: None,
            complete: false,
        }
    );
    assert_eq!(
        e.reconcile_broadcast(ReconcileStep::Load, ReconcileEvent::Loaded(None)),
        ReconcileStep::Stop
    );
    assert_eq!(
        e.reconcile_broadcast(
            asked(),
            ReconcileEvent::Status(Err(RpcError::Transport("x".to_string())))
        ),
        ReconcileStep::Fail(ExecutorError::NodeUnavailable(RpcError::Transport(
            "x".to_string()
        )))
    );
}

#[test]
fn a_block_hash_is_stored_only_where_it_is_one() {
    assert_eq!(
        status(1, Some(&encode(&[7; 32]))).block_hash(),
        Some([7; 32])
    );
    assert_eq!(status(1, Some("7f")).block_hash(), None);
    assert_eq!(status(1, Some("xy")).block_hash(), None);
    assert_eq!(status(0, None).block_hash(), None);
}

#[test]
fn errors_name_their_kind() {
    assert_eq!(
        classify(RpcError::Transport("x".to_string())).message(),
        "Goldcoin node unavailable: transport error: x"
    );
    assert_eq!(
        classify(RpcError::Malformed("x".to_string())).message(),
        "Goldcoin RPC error: malformed response: x"
    );
    assert_eq!(
        ExecutorError::Db("locked".to_string()).message(),
        "database error: locked"
    );
    assert_eq!(
        ExecutorError::Verify("x".to_string()).message(),
        "payout verification failed: x"
    );
    assert_eq!(
        ExecutorError::Assembly("x".to_string()).message(),
        "multisig assembly failed: x"
    );
}

#[test]
fn the_notes_are_what_the_audit_trail_shows() {
    let cases = [
        (
            Note::AddressMismatch,
            "stored address and hash160 disagree",
        ),
        (
            Note::BelowDust,
            "amount is below the dust threshold and can never be paid out",
        ),
        (
            Note::InsufficientFunds,
            "insufficient spendable vault funds",
        ),
        (
            Note::UnknownToNode,
            "payout transaction unknown to the node",
        ),
        (Note::ReorgedAway, "payout block orphaned by a reorg"),
        (
            Note::Rebroadcast,
            "rebroadcast identical bytes after orphaning",
        ),
        (Note::OutputsAltered("as it is".to_string()), "as it is"),
    ];
    for (note, text) in cases {
        assert_eq!(note.message(), text);
    }
}

#[test]
fn transactions_are_described_by_their_parts() {
    let tx = decoded_tx(
        "ab".to_string(),
        vec![("cd".to_string(), 3)],
        vec![(5, "76a9".to_string())],
    );
    assert_eq!(tx.txid_hex, "ab");
    assert_eq!(tx.inputs[0].txid_hex, "cd");
    assert_eq!(tx.inputs[0].vout, 3);
    assert_eq!(tx.outputs[0].value_atomic, 5);
    assert_eq!(tx.outputs[0].script_pubkey_hex, "76a9");
    assert_eq!(
        outpoints(&[utxo(1, 5), utxo(2, 6)]),
        vec![(encode(&[1; 32]), 1), (encode(&[2; 32]), 2)]
    );
    assert_eq!(
        expected_output_scripts(&[0x22; 20], None),
        vec![format!("76a914{}88ac", "22".repeat(20))]
    );
    assert_eq!(
        expected_output_scripts(&[0x22; 20], Some(&[0x33; 20]))[1],
        format!("76a914{}88ac", "33".repeat(20))
    );
}
