//! Which answers of peers are accepted, and whom a round asks.

use glc_bridge::p2p::aggregation::PeerOutcome;
use glc_bridge::p2p::collector::{
    Collection, DesignatedSigner, GrpcCollector, PayoutSignResponse, PeerReply, RoundStep,
    SignResponse,
};
use glc_bridge::p2p::identity::{PeerEndpoint, TlsMaterial};
use glc_bridge::p2p::requests::{
    completion_request, governance_request, message_request, payout_request, sweep_request,
    CompletionSignRequest, GovernanceSignRequest, PayoutSignRequest, Stamp, Subject,
    SweepSignRequest,
};
use glc_bridge::solana::confirm::Signature;
use glc_bridge::solana::pubkey::Pubkey;
use glc_bridge::withdrawal::multisig::PartialSignature;
use solana_sdk::signature::{Keypair, Signer};

fn key_of(kp: &Keypair) -> Pubkey {
    Pubkey::new_from_array(kp.pubkey().to_bytes())
}

fn resp(kp: &Keypair, message: &[u8]) -> SignResponse {
    SignResponse {
        request_id: vec![1],
        validator_pubkey: kp.pubkey().to_bytes().to_vec(),
        signature: kp.sign_message(message).as_ref().to_vec(),
    }
}

fn peer(port: u16) -> PeerEndpoint {
    PeerEndpoint {
        validator_pubkey: key_of(&Keypair::new()),
        uri: format!("http://127.0.0.1:{port}"),
    }
}

/// Runs a round in which every peer that is asked gives the same reply.
fn run(c: &GrpcCollector, mut round: Collection) -> (Collection, Vec<Pubkey>) {
    let mut asked = Vec::new();
    loop {
        match round.step(c.peers(), false) {
            RoundStep::Ask(i) => {
                asked.push(c.peers()[i].validator_pubkey);
                let outcome = GrpcCollector::judge(
                    &c.peers()[i].validator_pubkey,
                    b"m",
                    PeerReply::NotConnected("refused".to_string()),
                );
                round.record(outcome);
            }
            RoundStep::Skipped => {}
            RoundStep::Finished => return (round, asked),
        }
    }
}

#[test]
fn accepts_a_correct_response() {
    let kp = Keypair::new();
    let msg = b"canonical";
    assert!(GrpcCollector::accept(&key_of(&kp), msg, &resp(&kp, msg)).is_ok());
}

#[test]
fn rejects_a_signature_over_different_bytes() {
    let kp = Keypair::new();
    let err = GrpcCollector::accept(&key_of(&kp), b"canonical", &resp(&kp, b"other"))
        .expect_err("a signature must verify over the message we actually asked about");
    assert!(err.contains("does not verify"), "{err}");
}

#[test]
fn rejects_a_response_claiming_another_validators_identity() {
    let kp = Keypair::new();
    let impostor = Keypair::new();
    let msg = b"canonical";
    let err = GrpcCollector::accept(&key_of(&impostor), msg, &resp(&kp, msg))
        .expect_err("a peer must not contribute another validator's signature");
    assert!(err.contains("answered as"), "{err}");
    assert_eq!(
        err,
        format!(
            "endpoint registered as {} answered as {}",
            impostor.pubkey(),
            kp.pubkey()
        )
    );
}

#[test]
fn rejects_a_malformed_signature_or_pubkey() {
    let kp = Keypair::new();
    let mut r = resp(&kp, b"canonical");
    r.signature = vec![0u8; 10];
    assert!(GrpcCollector::accept(&key_of(&kp), b"canonical", &r).is_err());

    let mut r2 = resp(&kp, b"canonical");
    r2.validator_pubkey = vec![0u8; 5];
    assert!(GrpcCollector::accept(&key_of(&kp), b"canonical", &r2).is_err());
}

#[test]
fn request_ids_are_unique_across_calls() {
    let a = GrpcCollector::next_request_id(1_700_000_000_000_000_000);
    let b = GrpcCollector::next_request_id(1_700_000_000_000_000_001);
    assert_ne!(a, b);
    assert_eq!(a, 1_700_000_000_000_000_000u128.to_le_bytes().to_vec());
}

#[test]
fn an_unreachable_peer_is_bounded_and_classified_unavailable() {
    let key = key_of(&Keypair::new());
    let outcome = GrpcCollector::judge(
        &key,
        b"m",
        PeerReply::NotConnected("connection refused".to_string()),
    );
    assert!(
        matches!(outcome, PeerOutcome::Unavailable(_)),
        "got {outcome:?}"
    );
    let outcome = GrpcCollector::judge(&key, b"m", PeerReply::TimedOut);
    assert!(
        matches!(outcome, PeerOutcome::Unavailable(_)),
        "got {outcome:?}"
    );
}

#[test]
fn only_a_failed_precondition_is_a_refusal() {
    let key = key_of(&Keypair::new());
    let status = |failed_precondition| PeerReply::<SignResponse>::Status {
        failed_precondition,
        message: "no such deposit".to_string(),
        text: "status: no such deposit".to_string(),
    };
    assert!(matches!(
        GrpcCollector::judge(&key, b"m", status(true)),
        PeerOutcome::Refused(_)
    ));
    assert!(matches!(
        GrpcCollector::judge(&key, b"m", status(false)),
        PeerOutcome::Unavailable(_)
    ));
}

#[test]
fn a_round_of_unreachable_peers_completes_and_reports_a_retriable_shortfall() {
    let c = GrpcCollector::insecure_without_tls(vec![peer(1), peer(2)]);
    let (round, _) = run(&c, c.collect(2, 0));
    assert_eq!(round.round.unique_signers(), 0);
    assert_eq!(round.round.unavailable.len(), 2, "both peers were tried");
    assert!(!round.round.reached(2));
    assert!(
        round.round.retry_could_help(2),
        "unreachable peers may come back, so a retry is worthwhile"
    );
    assert!(!round.round.retry_could_help(3));
}

fn designated(vault_key: u8) -> (Pubkey, DesignatedSigner) {
    let validator = key_of(&Keypair::new());
    let mut vault_pubkey = [0u8; 33];
    vault_pubkey[0] = 0x02;
    vault_pubkey[32] = vault_key;
    (
        validator,
        DesignatedSigner {
            validator_pubkey: validator,
            vault_pubkey,
        },
    )
}

fn payout_resp(validator: &Pubkey, vault_pubkey: [u8; 33]) -> PayoutSignResponse {
    PayoutSignResponse {
        request_id: vec![1],
        validator_pubkey: validator.to_bytes().to_vec(),
        vault_pubkey: vault_pubkey.to_vec(),
        signatures: vec![vec![0x30, 0x44, 0x01]],
    }
}

#[test]
fn accepts_a_consistent_payout_response() {
    let (v, d) = designated(7);
    let r = payout_resp(&v, d.vault_pubkey);
    let p = GrpcCollector::accept_payout(&v, &d, r).unwrap();
    assert_eq!(p.vault_pubkey, d.vault_pubkey);
    assert_eq!(p.signatures.len(), 1);
}

#[test]
fn rejects_a_payout_response_from_the_wrong_federation_identity() {
    let (v, d) = designated(7);
    let impostor = key_of(&Keypair::new());
    let r = payout_resp(&impostor, d.vault_pubkey);
    let err = GrpcCollector::accept_payout(&v, &d, r).unwrap_err();
    assert!(err.contains("answered as"), "{err}");
}

#[test]
fn rejects_a_vault_key_the_signer_was_not_designated_for() {
    let (v, d) = designated(7);
    let mut other = d.vault_pubkey;
    other[32] = 9;
    let err = GrpcCollector::accept_payout(&v, &d, payout_resp(&v, other)).unwrap_err();
    assert!(err.contains("designated for"), "{err}");
}

#[test]
fn rejects_malformed_or_empty_payout_responses() {
    let (v, d) = designated(7);

    let mut r = payout_resp(&v, d.vault_pubkey);
    r.vault_pubkey = vec![0u8; 5];
    assert!(GrpcCollector::accept_payout(&v, &d, r).is_err());

    let mut r = payout_resp(&v, d.vault_pubkey);
    r.validator_pubkey = vec![0u8; 5];
    assert!(GrpcCollector::accept_payout(&v, &d, r).is_err());

    let mut r = payout_resp(&v, d.vault_pubkey);
    r.signatures = Vec::new();
    assert!(
        GrpcCollector::accept_payout(&v, &d, r).is_err(),
        "a response with no signatures contributes nothing and must be refused"
    );

    let mut r = payout_resp(&v, d.vault_pubkey);
    r.signatures = vec![Vec::new()];
    assert!(
        GrpcCollector::accept_payout(&v, &d, r).is_err(),
        "an empty signature would be placed into a scriptSig as a zero-length push"
    );
}

#[test]
fn a_designated_payout_signer_that_is_not_a_configured_peer_is_a_shortfall() {
    let stranger = key_of(&Keypair::new());
    let c = GrpcCollector::insecure_without_tls(vec![peer(1)]);
    let (round, asked) = run(&c, c.collect_payout_signatures(&[stranger]));
    assert!(asked.is_empty());
    assert_eq!(round.round.unique_signers(), 0);
    assert_eq!(round.round.unavailable.len(), 1);
    assert!(
        round.round.unavailable[0].1.contains("not a configured peer"),
        "{:?}",
        round.round.unavailable
    );
    assert_eq!(
        round.round.unavailable[0].0, stranger,
        "the shortfall is attributed to the designated signer"
    );
}

#[test]
fn payout_collection_asks_only_the_designated_quorum() {
    let designated = peer(1);
    let other = peer(2);
    let c = GrpcCollector::insecure_without_tls(vec![designated.clone(), other.clone()]);
    let (round, asked) = run(
        &c,
        c.collect_payout_signatures(&[designated.validator_pubkey]),
    );
    assert_eq!(asked, vec![designated.validator_pubkey]);
    assert_eq!(round.round.unavailable.len(), 1, "only the designated peer");
    assert_eq!(round.round.unavailable[0].0, designated.validator_pubkey);
    assert!(
        !round
            .round
            .unavailable
            .iter()
            .any(|(pk, _)| *pk == other.validator_pubkey),
        "a non-designated peer must never be substituted in"
    );
}

#[test]
fn an_open_round_asks_everyone_once_from_a_rotated_start() {
    let peers = vec![peer(1), peer(2), peer(3)];
    let keys: Vec<Pubkey> = peers.iter().map(|p| p.validator_pubkey).collect();
    let c = GrpcCollector::insecure_without_tls(peers);
    let (_, asked) = run(&c, c.collect(3, 4));
    assert_eq!(asked, vec![keys[1], keys[2], keys[0]]);
}

#[test]
fn a_round_stops_asking_once_enough_have_signed() {
    let kps = [Keypair::new(), Keypair::new(), Keypair::new()];
    let peers: Vec<PeerEndpoint> = kps
        .iter()
        .map(|k| PeerEndpoint {
            validator_pubkey: key_of(k),
            uri: String::new(),
        })
        .collect();
    let c = GrpcCollector::insecure_without_tls(peers);
    let mut round = c.collect(2, 0);
    let mut asked = 0;
    loop {
        match round.step(c.peers(), false) {
            RoundStep::Ask(i) => {
                asked += 1;
                let reply = PeerReply::Answer(resp(&kps[i], b"m"));
                let outcome = GrpcCollector::judge(&key_of(&kps[i]), b"m", reply);
                assert!(matches!(outcome, PeerOutcome::Signed(_)));
                round.record(outcome);
            }
            RoundStep::Skipped => {}
            RoundStep::Finished => break,
        }
    }
    assert_eq!(asked, 2);
    assert!(round.round.reached(2));
    assert_eq!(round.round.unique_signers(), 2);
}

#[test]
fn the_same_signer_twice_counts_once() {
    let key = key_of(&Keypair::new());
    let c = GrpcCollector::insecure_without_tls(vec![PeerEndpoint {
        validator_pubkey: key,
        uri: String::new(),
    }]);
    let mut round = c.collect_payout_signatures(&[key, key]);
    while let RoundStep::Ask(_) = round.step(c.peers(), false) {
        round.record(PeerOutcome::Signed(Signature { bytes: [1; 64] }));
    }
    assert_eq!(round.round.signatures.len(), 2);
    assert_eq!(round.round.unique_signers(), 1);
    assert!(!round.round.reached(2));
}

#[test]
fn past_the_deadline_nobody_is_asked() {
    let c = GrpcCollector::insecure_without_tls(vec![peer(1), peer(2)]);
    let mut round = c.collect(2, 0);
    assert_eq!(round.step(c.peers(), true), RoundStep::Skipped);
    assert_eq!(round.step(c.peers(), true), RoundStep::Skipped);
    assert_eq!(round.step(c.peers(), true), RoundStep::Finished);
    assert_eq!(round.round.unavailable.len(), 2);
    assert_eq!(round.round.unavailable[0].1, "round timeout");
}

#[test]
fn a_sweep_round_stops_at_the_threshold_of_partials() {
    let signers: Vec<DesignatedSigner> = (1..4).map(|i| designated(i).1).collect();
    let peers: Vec<PeerEndpoint> = signers
        .iter()
        .map(|s| PeerEndpoint {
            validator_pubkey: s.validator_pubkey,
            uri: String::new(),
        })
        .collect();
    let tls = TlsMaterial {
        ca_pem: vec![1],
        cert_pem: vec![2],
        key_pem: vec![3],
    };
    let c = GrpcCollector::new(peers, tls, "federation.example".to_string());
    let mut round = c.collect_sweep_partials(&signers, 2);
    while let RoundStep::Ask(i) = round.step(c.peers(), false) {
        let reply = PeerReply::Answer(payout_resp(
            &signers[i].validator_pubkey,
            signers[i].vault_pubkey,
        ));
        round.record_vault_reply(&signers, reply);
    }
    let result = round.into_partials();
    assert_eq!(result.partials.len(), 2);
    assert_eq!(
        result.partials[0],
        PartialSignature {
            vault_pubkey: signers[0].vault_pubkey,
            signatures: vec![vec![0x30, 0x44, 0x01]],
        }
    );
    assert_eq!(result.round.unique_signers(), 2);
}

#[test]
fn a_reply_counts_only_under_the_key_of_the_signer_whose_turn_it_was() {
    let signers: Vec<DesignatedSigner> = (1..3).map(|i| designated(i).1).collect();
    let peers: Vec<PeerEndpoint> = signers
        .iter()
        .map(|s| PeerEndpoint {
            validator_pubkey: s.validator_pubkey,
            uri: String::new(),
        })
        .collect();
    let c = GrpcCollector::insecure_without_tls(peers);
    let mut round = c.collect_payout_partials(&signers);
    assert_eq!(round.step(c.peers(), false), RoundStep::Ask(0));
    round.record_vault_reply(
        &signers,
        PeerReply::Answer(payout_resp(
            &signers[0].validator_pubkey,
            signers[1].vault_pubkey,
        )),
    );
    assert!(round.partials.is_empty());
    assert_eq!(round.step(c.peers(), false), RoundStep::Ask(1));
    round.record_vault_reply(
        &signers,
        PeerReply::Answer(payout_resp(
            &signers[1].validator_pubkey,
            signers[1].vault_pubkey,
        )),
    );
    assert_eq!(round.partials.len(), 1);
    assert_eq!(round.partials[0].vault_pubkey, signers[1].vault_pubkey);
    assert_eq!(round.round.unavailable.len(), 1);
}

#[test]
fn the_starting_peer_follows_from_what_is_signed() {
    let peers: Vec<PeerEndpoint> = (0..3).map(|i| peer(9_000 + i)).collect();
    let keys: Vec<Pubkey> = peers.iter().map(|p| p.validator_pubkey).collect();
    let c = GrpcCollector::insecure_without_tls(peers);
    let rotated = |by: usize| -> Vec<Pubkey> { (0..3).map(|i| keys[(i + by) % 3]).collect() };
    let mut txid = [0u8; 32];
    txid[0] = 4;
    assert_eq!(c.collect_mint_signatures(&txid, 5).order, rotated(1));
    assert_eq!(c.collect_completion_signatures(6, &txid).order, rotated(2));
    assert_eq!(c.collect_governance_signatures(3, &txid).order, rotated(7 % 3));
    for round in [
        c.collect_mint_signatures(&txid, 5),
        c.collect_completion_signatures(6, &txid),
        c.collect_governance_signatures(3, &txid),
    ] {
        let (_, asked) = run(&c, round);
        assert_eq!(asked.len(), 3, "everyone is asked");
    }
}

const STAMP: Stamp = Stamp {
    nanos: 1_700_000_000_000_000_000,
    now_unix: 1_700_000_000,
    ttl_seconds: 30,
};

#[test]
fn a_request_says_what_is_to_be_signed_and_until_when() {
    let id = 1_700_000_000_000_000_000u128.to_le_bytes().to_vec();
    assert_eq!(
        payout_request(STAMP, 2, 4, 1, &[9, 8], "0100", 3),
        PayoutSignRequest {
            request_id: id.clone(),
            epoch: 2,
            withdrawal_index: 4,
            quorum_attempt: 1,
            canonical_intent: vec![9, 8],
            unsigned_tx_hex: "0100".to_string(),
            expiry_unix: 1_700_000_030,
            proposer_index: 3,
        }
    );
    assert_eq!(
        sweep_request(STAMP, 2, "0100"),
        SweepSignRequest {
            request_id: id.clone(),
            epoch: 2,
            unsigned_tx_hex: "0100".to_string(),
            expiry_unix: 1_700_000_030,
        }
    );
    assert_eq!(
        completion_request(STAMP, 2, 4, &[7; 32], 100),
        CompletionSignRequest {
            request_id: id.clone(),
            epoch: 2,
            withdrawal_index: 4,
            payout_txid: vec![7; 32],
            payout_height: 100,
            expiry_unix: 1_700_000_030,
        }
    );
    assert_eq!(
        governance_request(STAMP, 2, 3, &[6; 32]),
        GovernanceSignRequest {
            request_id: id.clone(),
            epoch: 2,
            action: 3,
            params_commitment: vec![6; 32],
            expiry_unix: 1_700_000_030,
        }
    );
    let subject = Subject::Mint {
        txid: [5; 32],
        vout: 1,
    };
    let asked = message_request(STAMP, 2, b"claim", subject);
    assert_eq!(asked.request_id, id);
    assert_eq!(asked.epoch, 2);
    assert_eq!(asked.message, b"claim".to_vec());
    assert_eq!(asked.subject, subject);
}

#[test]
fn a_later_request_has_another_id() {
    let later = Stamp {
        nanos: STAMP.nanos + 1,
        ..STAMP
    };
    assert_ne!(
        sweep_request(STAMP, 2, "0100").request_id,
        sweep_request(later, 2, "0100").request_id
    );
}
