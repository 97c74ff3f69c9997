//! Staged approvals, what is pending, and how a relayer joins the federation.

use glc_bridge::glc::hex::{encode, HexError};
use glc_bridge::ops::environment::{ConfigError, Environment};
use glc_bridge::ops::federation::{
    operator_index, peers_contain, CollectorRefusal, PeerSettings, StartRefusal, Transport,
};
use glc_bridge::ops::governance::{
    approve, commitment_of, execute_queued, queued_action, show_config, show_pending,
    submit_tvl_raise, transfer_admin, Approval, ApprovalStore, ACTION_CANCEL_ROTATION,
    ACTION_PROPOSE_ROTATION, ACTION_PROPOSE_TVL_RAISE,
};
use glc_bridge::ops::submission::{
    collect_governance, GovernanceCommand, SubmissionEvent, SubmissionRefusal, SubmissionStep,
};
use glc_bridge::p2p::aggregation::{PeerOutcome, Round};
use glc_bridge::p2p::identity::PeerEndpoint;
use glc_bridge::solana::confirm::Signature;
use glc_bridge::solana::instruction::{
    execute_cap_raise_instruction, execute_rotation_instruction, propose_cap_raise_instruction,
    transfer_admin_instruction,
};
use glc_bridge::solana::pubkey::Pubkey;
use glc_bridge::solana::rpc::{
    BridgeConfigSnapshot, PendingActionSnapshot, ValidatorSetSnapshot,
};
use sha2::{Digest, Sha256};

fn key(b: u8) -> Pubkey {
    Pubkey::new_from_array([b; 32])
}

fn text(b: u8) -> String {
    solana_sdk::pubkey::Pubkey::new_from_array([b; 32]).to_string()
}

fn approval(action: u8, note: &str) -> Approval {
    approve(action, b"params", 3, 1_000, 100, note.to_string())
}

#[test]
fn an_approval_commits_to_the_parameters_for_a_limited_time() {
    let a = approval(ACTION_PROPOSE_ROTATION, "why");
    let digest: [u8; 32] = Sha256::digest(b"params").into();
    assert_eq!(a.params_commitment, digest);
    assert_eq!(commitment_of(b"params"), digest);
    assert_eq!(a.epoch, 3);
    assert_eq!(a.expiry_unix, 1_100);
}

#[test]
fn staging_replaces_the_approval_of_the_same_action() {
    let mut store = ApprovalStore::new();
    assert!(store.is_empty());
    store.stage(approval(ACTION_PROPOSE_ROTATION, "first"));
    store.stage(approval(ACTION_PROPOSE_TVL_RAISE, "other"));
    store.stage(approval(ACTION_PROPOSE_ROTATION, "second"));
    assert_eq!(store.approvals.len(), 2);
    assert_eq!(store.get(ACTION_PROPOSE_ROTATION).unwrap().note, "second");
    assert_eq!(store.get(ACTION_PROPOSE_TVL_RAISE).unwrap().note, "other");
    assert!(store.get(ACTION_CANCEL_ROTATION).is_none());
}

#[test]
fn revoking_takes_one_approval_away() {
    let mut store = ApprovalStore::new();
    store.stage(approval(ACTION_PROPOSE_TVL_RAISE, "raise"));
    store.stage(approval(ACTION_PROPOSE_ROTATION, "rotate"));
    store.stage(approval(99, "unknown"));
    let kept = store.revoke_approval(ACTION_PROPOSE_ROTATION);
    assert!(kept.get(ACTION_PROPOSE_ROTATION).is_none());
    assert_eq!(
        kept.get(ACTION_PROPOSE_TVL_RAISE),
        store.get(ACTION_PROPOSE_TVL_RAISE)
    );
    assert!(kept.get(99).is_none());
}

#[test]
fn an_approval_is_valid_up_to_its_expiry() {
    let mut store = ApprovalStore::new();
    assert_eq!(
        store.list_approvals(0),
        "no approvals staged — this signer will refuse every governance request\n"
    );
    store.stage(approval(ACTION_PROPOSE_TVL_RAISE, "raise"));
    store.stage(approval(ACTION_PROPOSE_ROTATION, "rotate"));
    let hash = encode(&commitment_of(b"params"));
    assert_eq!(
        store.list_approvals(1_100),
        format!("action 3 epoch 3 valid commitment {hash}\n  note: rotate\naction 5 epoch 3 valid commitment {hash}\n  note: raise\n")
    );
    assert!(store.list_approvals(1_101).contains("action 3 epoch 3 EXPIRED"));
}

fn pending(action: u8) -> PendingActionSnapshot {
    PendingActionSnapshot {
        action,
        proposed_under_epoch: 9,
        eta: 500,
        threshold: 1,
        validators: vec![key(1), key(2)],
        proposed_max_wrapped_supply: 77,
    }
}

#[test]
fn a_pending_action_shows_what_is_left_of_its_timelock() {
    assert_eq!(show_pending(&None, 0), "no governance action is pending\n");
    assert_eq!(
        show_pending(&Some(pending(ACTION_PROPOSE_ROTATION)), 440),
        format!("pending governance action\n  action:   3 (validator rotation)\n  epoch:    9\n  eta:      500 (60 seconds remaining)\n  threshold: 1 of 2\n    [0] {}\n    [1] {}\n", text(1), text(2))
    );
    assert_eq!(
        show_pending(&Some(pending(ACTION_PROPOSE_TVL_RAISE)), 500),
        "pending governance action\n  action:   5 (wrapped-supply cap raise)\n  epoch:    9\n  eta:      500 (timelock elapsed — executable now)\n  new ceiling: 77\n"
    );
    assert!(show_pending(&Some(pending(9)), 501).contains("9 (unrecognised)"));
}

#[test]
fn the_configuration_is_shown_whole() {
    let mut c = BridgeConfigSnapshot {
        protocol_version: 1,
        admin: key(1),
        pending_admin: None,
        paused: false,
        withdrawal_count: 4,
        min_deposit: 10,
        min_withdrawal: 20,
        wrapped_mint: Pubkey::default(),
        governance_timelock_seconds: 60,
        max_wrapped_supply: 100,
    };
    let set = ValidatorSetSnapshot {
        epoch: 7,
        threshold: 1,
        validators: vec![key(3)],
    };
    assert_eq!(
        show_config(&key(9), &c, &set),
        format!("bridge config ({})\n  protocol version: 1\n  admin:            {}\n  pending admin:    none\n  paused:           no\n  wrapped mint:     NOT YET CREATED — minting is impossible until `create-wrapped-mint` runs\n  governance timelock: 60s\n  max wrapped supply:  100 atomic\n  min deposit/withdrawal: 10/20\n  withdrawals so far:  4\n\nvalidator set (epoch 7)\n  threshold: 1 of 1\n  [0] {}\n", text(9), text(1), text(3))
    );
    c.paused = true;
    c.pending_admin = Some(key(2));
    c.wrapped_mint = key(5);
    let shown = show_config(&key(9), &c, &set);
    assert!(shown.contains("paused:           YES"));
    assert!(shown.contains(&format!("{} — a handover is IN FLIGHT", text(2))));
    assert!(shown.contains(&format!("wrapped mint:     {}", text(5))));
}

#[test]
fn the_queued_action_is_executed_by_its_own_call() {
    assert_eq!(queued_action(true), ACTION_PROPOSE_TVL_RAISE);
    assert_eq!(queued_action(false), ACTION_PROPOSE_ROTATION);
    assert_eq!(
        execute_queued(&key(9), &key(8), true),
        Some(execute_cap_raise_instruction(&key(9), &key(8)))
    );
    assert_eq!(
        execute_queued(&key(9), &key(8), false),
        Some(execute_rotation_instruction(&key(9), &key(8)))
    );
    assert_eq!(
        submit_tvl_raise(&key(9), &key(8), 5),
        Ok(Some(propose_cap_raise_instruction(&key(9), &key(8), 5)))
    );
    assert_eq!(
        submit_tvl_raise(&key(9), &key(8), 0).unwrap_err().message(),
        "a wrapped-supply cap of zero is never valid"
    );
}

#[test]
fn the_typed_key_is_nominated() {
    assert_eq!(
        transfer_admin(&key(9), &key(8), &text(4)),
        Ok(Some(transfer_admin_instruction(&key(9), &key(8), &key(4))))
    );
    let why = "x"
        .parse::<solana_sdk::pubkey::Pubkey>()
        .unwrap_err()
        .to_string();
    assert_eq!(
        transfer_admin(&key(9), &key(8), "x").unwrap_err().message(),
        format!("--new-admin is not a pubkey: {why}")
    );
}

fn environment(vars: &[(&str, &str)]) -> Environment {
    Environment {
        vars: vars
            .iter()
            .map(|(n, v)| (n.to_string(), v.to_string()))
            .collect(),
    }
}

#[test]
fn tls_is_switched_off_only_in_so_many_words() {
    let tls = [
        ("GLC_FEDERATION_CA_CERT_PATH", "/ca"),
        ("GLC_RELAYER_TLS_CERT_PATH", "/cert"),
        ("GLC_RELAYER_TLS_KEY_PATH", "/key"),
        ("GLC_FEDERATION_TLS_DOMAIN", "fed"),
    ];
    assert_eq!(
        environment(&[("GLC_FEDERATION_TLS", "off")]).transport_from_env(),
        Ok(Transport::Plain)
    );
    let mut vars = tls.to_vec();
    vars.push(("GLC_FEDERATION_TLS", "OFF"));
    assert_eq!(
        environment(&vars).transport_from_env(),
        Ok(Transport::Tls {
            ca_path: "/ca".to_string(),
            cert_path: "/cert".to_string(),
            key_path: "/key".to_string(),
            domain: "fed".to_string(),
        })
    );
    for (name, _) in tls {
        let rest: Vec<(&str, &str)> = tls.iter().filter(|(n, _)| *n != name).copied().collect();
        assert_eq!(
            environment(&rest).transport_from_env(),
            Err(ConfigError::Missing(name.to_string()))
        );
    }
}

#[test]
fn a_relayer_without_peers_collects_nothing() {
    let peer = PeerEndpoint {
        validator_pubkey: key(1),
        uri: "http://peer".to_string(),
    };
    let off = ("GLC_FEDERATION_TLS", "off");
    let env = environment(&[off]);
    let missing = || ConfigError::Missing("GLC_FEDERATION_PEERS".to_string());
    assert_eq!(env.peers_from_env(), Err(missing()));
    let refused = env.collector_from_env(Ok(vec![peer.clone()])).unwrap_err();
    assert_eq!(refused, CollectorRefusal::Setting(missing()));
    assert_eq!(
        refused.message(),
        "required environment variable GLC_FEDERATION_PEERS is not set"
    );

    let listed = ("GLC_FEDERATION_PEERS", "k@http://peer");
    let env = environment(&[listed, off]);
    assert_eq!(
        env.peers_from_env(),
        Ok(PeerSettings {
            peers: "k@http://peer".to_string(),
            local_signer_uri: String::new(),
        })
    );
    let env = environment(&[listed, off, ("GLC_RELAYER_LOCAL_SIGNER_URI", "http://own")]);
    assert_eq!(
        env.peers_from_env().unwrap().local_signer_uri,
        "http://own"
    );
    assert_eq!(
        env.collector_from_env(Ok(vec![peer.clone()])),
        Ok((vec![peer.clone()], Transport::Plain))
    );
    let refused = env.collector_from_env(Err("no key".to_string())).unwrap_err();
    assert_eq!(refused.message(), "no key");
    let env = environment(&[listed]);
    assert_eq!(
        env.collector_from_env(Ok(vec![peer])),
        Err(CollectorRefusal::Setting(ConfigError::Missing(
            "GLC_FEDERATION_CA_CERT_PATH".to_string()
        )))
    );
}

#[test]
fn the_program_and_the_identity_are_stated() {
    let program = encode(&[9; 32]);
    let env = environment(&[
        ("GLC_PROGRAM_ID_HEX", program.as_str()),
        ("GLC_RELAYER_VALIDATOR_PUBKEY", text(4).as_str()),
    ]);
    assert_eq!(env.program_id_from_env(), Ok(key(9)));
    assert_eq!(env.relayer_identity_from_env(), Ok(key(4)));
    let env = environment(&[
        ("GLC_PROGRAM_ID_HEX", "09"),
        ("GLC_RELAYER_VALIDATOR_PUBKEY", "x"),
    ]);
    assert_eq!(
        env.program_id_from_env(),
        Err(ConfigError::NotHex {
            name: "GLC_PROGRAM_ID_HEX".to_string(),
            why: HexError::WrongLength
        })
    );
    assert_eq!(
        env.program_id_from_env().unwrap_err().message(),
        "GLC_PROGRAM_ID_HEX is not 32 hex bytes: wrong number of bytes"
    );
    assert!(env
        .relayer_identity_from_env()
        .unwrap_err()
        .message()
        .starts_with("GLC_RELAYER_VALIDATOR_PUBKEY is not a pubkey: "));
    assert_eq!(
        environment(&[]).program_id_from_env(),
        Err(ConfigError::Missing("GLC_PROGRAM_ID_HEX".to_string()))
    );
}

#[test]
fn a_relayer_is_none_of_its_own_peers() {
    let peers = [PeerEndpoint {
        validator_pubkey: key(1),
        uri: "http://a".to_string(),
    }];
    assert!(peers_contain(&peers, &key(1)));
    assert!(!peers_contain(&peers, &key(2)));
    assert_eq!(operator_index(&peers, &key(2), Some(3)), Ok(3));
    let e = operator_index(&peers, &key(1), Some(3)).unwrap_err();
    assert_eq!(e, StartRefusal::AmongItsPeers(key(1)));
    assert_eq!(
        e.message(),
        format!("GLC_RELAYER_VALIDATOR_PUBKEY {} appears in GLC_FEDERATION_PEERS; peers are the OTHER operators", text(1))
    );
    assert_eq!(
        operator_index(&peers, &key(2), None).unwrap_err().message(),
        format!("GLC_RELAYER_VALIDATOR_PUBKEY {} does not appear in GLC_VAULT_SIGNER_MAP — refusing to start without an operator index", text(2))
    );
}

fn round_of(signers: &[u8]) -> Round {
    let mut round = Round::new();
    for b in signers {
        let signature = Signature { bytes: [*b; 64] };
        round.record(key(*b), PeerOutcome::Signed(signature));
    }
    round
}

#[test]
fn a_proposal_goes_out_with_the_signatures_of_enough_members() {
    let step = collect_governance(
        SubmissionStep::Preflight(GovernanceCommand::Propose),
        SubmissionEvent::Preflighted(Ok(())),
    );
    assert_eq!(step, SubmissionStep::Collect(GovernanceCommand::Propose));
    let step = collect_governance(
        step,
        SubmissionEvent::Collected {
            round: round_of(&[1, 2]),
            threshold: 2,
        },
    );
    assert_eq!(
        step,
        SubmissionStep::Submit(Some(round_of(&[1, 2]).signatures))
    );
}

#[test]
fn one_member_that_signs_twice_counts_once() {
    let step = collect_governance(
        SubmissionStep::Collect(GovernanceCommand::Cancel),
        SubmissionEvent::Collected {
            round: round_of(&[1, 1]),
            threshold: 2,
        },
    );
    let refusal = SubmissionRefusal::TooFewApprovals { have: 1, need: 2 };
    assert_eq!(
        refusal.message(),
        "collected 1 of 2 required approvals. Each remaining operator must run the matching `glc-admin approve-*` command."
    );
    assert_eq!(step, SubmissionStep::Refused(refusal));
}

#[test]
fn nobody_is_asked_about_a_command_that_cannot_go_out() {
    for (command, text) in [
        (GovernanceCommand::Propose, "busy (`glc-admin show-pending`)"),
        (GovernanceCommand::Cancel, "busy — nothing to cancel"),
        (GovernanceCommand::Execute, "busy"),
    ] {
        let step = collect_governance(
            SubmissionStep::Preflight(command),
            SubmissionEvent::Preflighted(Err("busy".to_string())),
        );
        match step {
            SubmissionStep::Refused(e) => assert_eq!(e.message(), text),
            other => panic!("expected a refusal, got {other:?}"),
        }
    }
}

#[test]
fn execution_needs_no_new_approval() {
    let step = collect_governance(
        SubmissionStep::Preflight(GovernanceCommand::Execute),
        SubmissionEvent::Preflighted(Ok(())),
    );
    assert_eq!(step, SubmissionStep::Submit(None));
    let late = SubmissionEvent::Collected {
        round: round_of(&[]),
        threshold: 2,
    };
    assert_eq!(collect_governance(step, late), SubmissionStep::Submit(None));
}
