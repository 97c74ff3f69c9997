//! Collecting peer signatures: whom to ask, which answers to accept, and when
//! a round is done.
//!
//! Each response is checked against the on-chain identity its endpoint is
//! registered as, and its signature must verify over the message actually
//! requested. Falling short is normal and retried later; a refusal means that
//! a peer independently disagreed, and a retry will not fix it.

use crate::bytes::{le_bytes, le_value, read_le, same_bytes};
use crate::glc::hex;
use crate::p2p::aggregation::{ask_order, distinct, rotated, Outcomes, PeerOutcome, Round};
use crate::p2p::identity::{PeerEndpoint, TlsMaterial};
use crate::solana::confirm::Signature;
use crate::solana::pubkey::{key_text, Pubkey};
use crate::text::{lemma_shows_both, shows};
use crate::withdrawal::address::base58_text;
use crate::withdrawal::multisig::PartialSignature;
use vstd::prelude::*;

verus! {

/// A peer's answer to a request for its signature.
#[derive(Debug, Clone, PartialEq, Eq)]
pub struct SignResponse {
    pub request_id: Vec<u8>,
    pub validator_pubkey: Vec<u8>,
    pub signature: Vec<u8>,
}

/// A peer's answer to a request for its vault signatures.
#[derive(Debug, Clone, PartialEq, Eq)]
pub struct PayoutSignResponse {
    pub request_id: Vec<u8>,
    pub validator_pubkey: Vec<u8>,
    pub vault_pubkey: Vec<u8>,
    pub signatures: Vec<Vec<u8>>,
}

/// What calling a peer brought back.
#[derive(Debug, PartialEq, Eq)]
pub enum PeerReply<T> {
    /// No connection could be made.
    NotConnected(String),
    /// The peer did not answer in time.
    TimedOut,
    /// The peer answered with a status: its message alone, and the whole of
    /// it.
    Status { failed_precondition: bool, message: String, text: String },
    Answer(T),
}

/// A designated signer and the vault key it must answer with.
#[derive(Debug, Clone, Copy, PartialEq, Eq)]
pub struct DesignatedSigner {
    pub validator_pubkey: Pubkey,
    pub vault_pubkey: [u8; 33],
}

/// The outcome of collecting vault signatures.
#[derive(Debug, PartialEq, Eq)]
pub struct PartialRound {
    pub partials: Vec<PartialSignature>,
    pub round: Round,
}

/// Whether an ed25519 signature is one of a message by a key.
pub uninterp spec fn verifies(signature: Seq<u8>, pubkey: Seq<u8>, message: Seq<u8>) -> bool;

/// `solana_sdk::signature::Signature::verify`: a function of the signature,
/// the key and the message. It says no, and does not fail, where the key or
/// the signature is not well formed.
#[verifier::external_body]
fn verify_signature(signature: &Signature, pubkey: &Pubkey, message: &[u8]) -> (ok: bool)
    ensures
        ok == verifies(signature.bytes@, pubkey@, message@),
{
    solana_sdk::signature::Signature::from(signature.bytes).verify(&pubkey.bytes, message)
}

/// What is said of a peer that answers as another.
pub open spec fn impostor_text(expected: Seq<u8>, answered: Seq<u8>) -> Seq<char> {
    "endpoint registered as "@ + base58_text(expected) + " answered as "@ + base58_text(answered)
}

/// Why a response cannot be from the peer that was asked.
pub open spec fn identity_fault(expected: Seq<u8>, answered: Seq<u8>) -> Option<Seq<char>> {
    if answered.len() != 32 {
        Some("response carried a malformed validator pubkey"@)
    } else if answered != expected {
        Some(impostor_text(expected, answered))
    } else {
        None
    }
}

/// Why a response is not acceptable, given whether its signature verifies.
pub open spec fn response_fault(expected: Seq<u8>, resp: SignResponse, verified: bool) -> Option<
    Seq<char>,
> {
    match identity_fault(expected, resp.validator_pubkey@) {
        Some(why) => Some(why),
        None => if resp.signature@.len() != 64 {
            Some("response carried a malformed signature"@)
        } else if !verified {
            Some("signature does not verify over the requested message"@)
        } else {
            None
        },
    }
}

/// Why a vault response is not acceptable.
pub open spec fn payout_fault(
    expected: Seq<u8>,
    vault_pubkey: Seq<u8>,
    resp: PayoutSignResponse,
) -> Option<Seq<char>> {
    match identity_fault(expected, resp.validator_pubkey@) {
        Some(why) => Some(why),
        None => if resp.vault_pubkey@.len() != 33 {
            Some("response carried a malformed vault pubkey"@)
        } else if resp.vault_pubkey@ != vault_pubkey {
            Some(
                "designated signer "@ + base58_text(expected)
                    + " answered with a vault key it was not designated for"@,
            )
        } else if resp.signatures@.len() == 0 {
            Some("response carried no signatures"@)
        } else if exists|i: int|
            0 <= i < resp.signatures@.len() && (#[trigger] resp.signatures@[i])@.len() == 0 {
            Some("response carried an empty signature"@)
        } else {
            None
        },
    }
}

/// What a status means. A failed precondition is a policy refusal; anything
/// else is unavailability.
pub open spec fn status_outcome(failed_precondition: bool, message: String, text: String) -> PeerOutcome {
    if failed_precondition {
        PeerOutcome::Refused(message)
    } else {
        PeerOutcome::Unavailable(text)
    }
}

/// Whether an outcome is unavailability for the given reason.
pub open spec fn unavailable_because(outcome: PeerOutcome, why: Seq<char>) -> bool {
    outcome matches PeerOutcome::Unavailable(m) && m@ == why
}

/// Whether a result is what the reply of a vault signer comes to.
pub open spec fn judged(
    expected: Seq<u8>,
    vault_pubkey: Seq<u8>,
    reply: PeerReply<PayoutSignResponse>,
    result: Result<PartialSignature, PeerOutcome>,
) -> bool {
    match reply {
        PeerReply::NotConnected(e) => result == Err::<PartialSignature, _>(
            PeerOutcome::Unavailable(e),
        ),
        PeerReply::TimedOut => result matches Err(outcome) && unavailable_because(
            outcome,
            "per-peer timeout"@,
        ),
        PeerReply::Status { failed_precondition, message, text } => result == Err::<
            PartialSignature,
            _,
        >(status_outcome(failed_precondition, message, text)),
        PeerReply::Answer(resp) => match payout_fault(expected, vault_pubkey, resp) {
            Some(why) => result matches Err(outcome) && unavailable_because(outcome, why),
            None => {
                &&& result matches Ok(partial)
                &&& partial.vault_pubkey@ == resp.vault_pubkey@
                &&& partial.signatures == resp.signatures
            },
        },
    }
}

fn check_identity(expected: &Pubkey, answered: &Vec<u8>) -> (fault: Option<String>)
    ensures
        match fault {
            Some(why) => identity_fault(expected@, answered@) == Some(why@),
            None => identity_fault(expected@, answered@) is None,
        },
{
    let answered: Pubkey = match hex::fixed::<32>(answered.as_slice()) {
        Ok(bytes) => Pubkey { bytes },
        Err(_) => {
            return Some(String::from_str("response carried a malformed validator pubkey"));
        },
    };
    if !answered.same_as(expected) {
        let mut why: String = String::from_str("endpoint registered as ");
        why.append(key_text(expected).as_str());
        why.append(" answered as ");
        why.append(key_text(&answered).as_str());
        return Some(why);
    }
    None
}

/// A federation member's view of its peers.
pub struct GrpcCollector {
    pub peers: Vec<PeerEndpoint>,
    /// `None` means no transport authentication at all.
    pub tls: Option<TlsMaterial>,
    /// The name peer certificates must be issued for. Pinned by configuration
    /// rather than taken from the URI.
    pub tls_domain: String,
}

impl GrpcCollector {
    /// Mutual TLS against the federation's own authority.
    pub fn new(peers: Vec<PeerEndpoint>, tls: TlsMaterial, tls_domain: String) -> (c: Self)
        ensures
            c.peers == peers,
            c.tls == Some(tls),
            c.tls_domain == tls_domain,
    {
        GrpcCollector { peers, tls: Some(tls), tls_domain }
    }

    /// The endpoints this collector can reach.
    pub fn peers(&self) -> (peers: &[PeerEndpoint])
        ensures
            peers@ == self.peers@,
    {
        self.peers.as_slice()
    }

    /// Plaintext transport, for loopback and tests: it rests entirely on the
    /// identity check in [`GrpcCollector::accept`].
    pub fn insecure_without_tls(peers: Vec<PeerEndpoint>) -> (c: Self)
        ensures
            c.peers == peers,
            c.tls is None,
            c.tls_domain@ == Seq::<char>::empty(),
    {
        GrpcCollector { peers, tls: None, tls_domain: String::new() }
    }

    /// The identities of the peers, in configuration order.
    pub fn identities(&self) -> (keys: Vec<Pubkey>)
        ensures
            keys@ == identities_of(self.peers@),
    {
        let mut keys: Vec<Pubkey> = Vec::new();
        let mut i: usize = 0;
        while i < self.peers.len()
            invariant
                i <= self.peers@.len(),
                keys@ == identities_of(self.peers@.take(i as int)),
            decreases self.peers@.len() - i,
        {
            keys.push(self.peers[i].validator_pubkey);
            i = i + 1;
            assert(keys@ =~= identities_of(self.peers@.take(i as int)));
        }
        assert(self.peers@.take(self.peers@.len() as int) =~= self.peers@);
        keys
    }

    /// A request id made of the time in nanoseconds, so that a retry is
    /// distinguishable from a fresh ask.
    pub fn next_request_id(nanos: u128) -> (id: Vec<u8>)
        ensures
            id@ == le_bytes(nanos as nat, 16),
    {
        let mut id: Vec<u8> = Vec::new();
        let mut rest: u128 = nanos;
        let mut left: usize = 16;
        while left > 0
            invariant
                left <= 16,
                id@ + le_bytes(rest as nat, left as nat) == le_bytes(nanos as nat, 16),
            decreases left,
        {
            let ghost before = id@;
            let ghost tail = le_bytes(rest as nat / 256, (left - 1) as nat);
            id.push((rest % 256) as u8);
            assert(id@ + tail =~= before + le_bytes(rest as nat, left as nat));
            rest = rest / 256;
            left = left - 1;
        }
        assert(id@ + le_bytes(rest as nat, 0) =~= id@);
        id
    }

    /// The key and the signature of a response from the peer that was asked.
    pub fn identify(expected: &Pubkey, resp: &SignResponse) -> (result: Result<
        (Pubkey, Signature),
        String,
    >)
        ensures
            match result {
                Ok(found) => response_fault(expected@, *resp, true) is None && found.0@ == expected@
                    && found.1.bytes@ == resp.signature@,
                Err(why) => response_fault(expected@, *resp, true) == Some(why@),
            },
    {
        match check_identity(expected, &resp.validator_pubkey) {
            Some(why) => Err(why),
            None => match hex::fixed::<64>(resp.signature.as_slice()) {
                Ok(bytes) => Ok((*expected, Signature { bytes })),
                Err(_) => Err(String::from_str("response carried a malformed signature")),
            },
        }
    }

    /// Accepts a well-formed response only if its signature verifies.
    pub fn settle(identified: (Pubkey, Signature), verified: bool) -> (result: Result<
        (Pubkey, Signature),
        String,
    >)
        ensures
            match result {
                Ok(found) => verified && found == identified,
                Err(why) => !verified && why@
                    == "signature does not verify over the requested message"@,
            },
    {
        if verified {
            Ok(identified)
        } else {
            Err(String::from_str("signature does not verify over the requested message"))
        }
    }

    /// Accepts a response only if it is internally consistent.
    ///
    /// The identity check stops a peer answering as somebody else, the
    /// signature check stops it contributing a signature over bytes other than
    /// the ones that were asked about. Neither implies the other.
    pub fn accept(expected: &Pubkey, message: &[u8], resp: &SignResponse) -> (result: Result<
        (Pubkey, Signature),
        String,
    >)
        ensures
            ({
                let verified = verifies(resp.signature@, expected@, message@);
                match result {
                    Ok(found) => response_fault(expected@, *resp, verified) is None && found.0@
                        == expected@ && found.1.bytes@ == resp.signature@,
                    Err(why) => response_fault(expected@, *resp, verified) == Some(why@),
                }
            }),
    {
        match Self::identify(expected, resp) {
            Err(why) => Err(why),
            Ok(identified) => {
                let verified: bool = verify_signature(&identified.1, &identified.0, message);
                Self::settle(identified, verified)
            },
        }
    }

    /// Accepts a vault response only if it is internally consistent.
    ///
    /// Two identity checks in two different cryptosystems: the federation key
    /// must match the endpoint, and the vault key must be the one this signer
    /// was designated to hold. The signatures themselves are verified during
    /// assembly.
    pub fn accept_payout(
        expected_validator: &Pubkey,
        designated: &DesignatedSigner,
        resp: PayoutSignResponse,
    ) -> (result: Result<PartialSignature, String>)
        ensures
            match result {
                Ok(partial) => {
                    &&& payout_fault(expected_validator@, designated.vault_pubkey@, resp) is None
                    &&& partial.vault_pubkey@ == resp.vault_pubkey@
                    &&& partial.signatures == resp.signatures
                },
                Err(why) => payout_fault(expected_validator@, designated.vault_pubkey@, resp)
                    == Some(why@),
            },
    {
        if let Some(why) = check_identity(expected_validator, &resp.validator_pubkey) {
            return Err(why);
        }
        let vault_pubkey: [u8; 33] = match hex::fixed::<33>(resp.vault_pubkey.as_slice()) {
            Ok(bytes) => bytes,
            Err(_) => {
                return Err(String::from_str("response carried a malformed vault pubkey"));
            },
        };
        if !same_bytes(&vault_pubkey, &designated.vault_pubkey) {
            let mut why: String = String::from_str("designated signer ");
            why.append(key_text(expected_validator).as_str());
            why.append(" answered with a vault key it was not designated for");
            return Err(why);
        }
        if resp.signatures.len() == 0 {
            return Err(String::from_str("response carried no signatures"));
        }
        let mut i: usize = 0;
        while i < resp.signatures.len()
            invariant
                i <= resp.signatures@.len(),
                resp.signatures@.len() > 0,
                resp.vault_pubkey@.len() == 33,
                resp.vault_pubkey@ == designated.vault_pubkey@,
                identity_fault(expected_validator@, resp.validator_pubkey@) is None,
                forall|j: int| 0 <= j < i ==> (#[trigger] resp.signatures@[j])@.len() != 0,
            decreases resp.signatures@.len() - i,
        {
            if resp.signatures[i].len() == 0 {
                assert(resp.signatures@[i as int]@.len() == 0);
                return Err(String::from_str("response carried an empty signature"));
            }
            i = i + 1;
        }
        Ok(PartialSignature { vault_pubkey, signatures: resp.signatures })
    }

    /// What calling one peer came to.
    ///
    /// An inconsistent response counts as unavailability rather than refusal:
    /// the peer did not decline, it answered wrongly.
    pub fn judge(expected: &Pubkey, message: &[u8], reply: PeerReply<SignResponse>) -> (outcome:
        PeerOutcome)
        ensures
            match reply {
                PeerReply::NotConnected(e) => outcome == PeerOutcome::Unavailable(e),
                PeerReply::TimedOut => unavailable_because(outcome, "per-peer timeout"@),
                PeerReply::Status { failed_precondition, message: m, text } => outcome
                    == status_outcome(failed_precondition, m, text),
                PeerReply::Answer(resp) => match response_fault(
                    expected@,
                    resp,
                    verifies(resp.signature@, expected@, message@),
                ) {
                    Some(why) => unavailable_because(outcome, why),
                    None => outcome matches PeerOutcome::Signed(s) && s.bytes@ == resp.signature@,
                },
            },
    {
        match reply {
            PeerReply::NotConnected(e) => PeerOutcome::Unavailable(e),
            PeerReply::TimedOut => PeerOutcome::Unavailable(String::from_str("per-peer timeout")),
            PeerReply::Status { failed_precondition, message: m, text } => {
                if failed_precondition {
                    PeerOutcome::Refused(m)
                } else {
                    PeerOutcome::Unavailable(text)
                }
            },
            PeerReply::Answer(resp) => match Self::accept(expected, message, &resp) {
                Ok((_, signature)) => PeerOutcome::Signed(signature),
                Err(why) => PeerOutcome::Unavailable(why),
            },
        }
    }

    /// What calling one vault signer came to.
    pub fn judge_payout(
        expected: &Pubkey,
        designated: &DesignatedSigner,
        reply: PeerReply<PayoutSignResponse>,
    ) -> (result: Result<PartialSignature, PeerOutcome>)
        ensures
            judged(expected@, designated.vault_pubkey@, reply, result),
    {
        match reply {
            PeerReply::NotConnected(e) => Err(PeerOutcome::Unavailable(e)),
            PeerReply::TimedOut => Err(
                PeerOutcome::Unavailable(String::from_str("per-peer timeout")),
            ),
            PeerReply::Status { failed_precondition, message, text } => Err(
                if failed_precondition {
                    PeerOutcome::Refused(message)
                } else {
                    PeerOutcome::Unavailable(text)
                },
            ),
            PeerReply::Answer(resp) => match Self::accept_payout(expected, designated, resp) {
                Ok(partial) => Ok(partial),
                Err(why) => Err(PeerOutcome::Unavailable(why)),
            },
        }
    }
}

/// The identities of some peers.
pub open spec fn identities_of(peers: Seq<PeerEndpoint>) -> Seq<Pubkey> {
    peers.map_values(|p: PeerEndpoint| p.validator_pubkey)
}

/// Who is asked in a round, and when it stops.
#[derive(Debug, Clone, Copy, PartialEq, Eq, Structural)]
pub enum RoundKind {
    /// Everyone is asked until enough different peers have signed.
    Open { threshold: usize },
    /// Exactly the designated signers are asked. The transaction id depends on
    /// which of them sign, so nobody is ever substituted for one that is
    /// missing.
    Payout,
    /// The vault signers are asked until enough of them have signed: any
    /// threshold of operators decides a sweep.
    Sweep { threshold: usize },
}

/// A collection round in progress.
#[derive(Debug, PartialEq, Eq)]
pub struct Collection {
    pub kind: RoundKind,
    /// Whom to ask, in this order.
    pub order: Vec<Pubkey>,
    /// The place in the order of the next one.
    pub next: usize,
    pub round: Round,
    pub partials: Vec<PartialSignature>,
}

/// What a round does next.
#[derive(Debug, Clone, Copy, PartialEq, Eq, Structural)]
pub enum RoundStep {
    /// Call the peer at this place in the configuration.
    Ask(usize),
    /// Nothing to do for this one; go on.
    Skipped,
    Finished,
}

/// The first configured peer with a key.
pub open spec fn peer_of(peers: Seq<PeerEndpoint>, key: Seq<u8>) -> Option<int>
    decreases peers.len(),
{
    if peers.len() == 0 {
        None
    } else if peers[0].validator_pubkey@ == key {
        Some(0)
    } else {
        match peer_of(peers.drop_first(), key) {
            Some(i) => Some(i + 1),
            None => None,
        }
    }
}

impl Collection {
    /// Whether enough have signed.
    pub open spec fn satisfied(self) -> bool {
        match self.kind {
            RoundKind::Open { threshold } => distinct(self.round@.signers()) >= threshold,
            RoundKind::Payout => false,
            RoundKind::Sweep { threshold } => self.partials@.len() >= threshold,
        }
    }

    /// Whether the round is over.
    pub open spec fn finished(self) -> bool {
        self.satisfied() || self.next >= self.order@.len()
    }

    /// What becomes of one who is not a configured peer.
    pub open spec fn without_peer(self, key: Seq<u8>) -> Outcomes {
        match self.kind {
            RoundKind::Open { .. } => self.round@,
            RoundKind::Payout => self.round@.with_unavailable(
                key,
                "designated signer is not a configured peer"@,
            ),
            RoundKind::Sweep { .. } => self.round@.with_unavailable(
                key,
                "vault signer is not a configured peer"@,
            ),
        }
    }

    /// A round in which nobody has been asked.
    pub open spec fn fresh(self, kind: RoundKind, order: Seq<Pubkey>) -> bool {
        &&& self.kind == kind
        &&& self.order@ == order
        &&& self.next == 0
        &&& self.round@ == (Outcomes {
            signed: Seq::empty(),
            refused: Seq::empty(),
            unavailable: Seq::empty(),
        })
        &&& self.partials@.len() == 0
    }

    /// Starts a round.
    pub fn start(kind: RoundKind, order: Vec<Pubkey>) -> (c: Self)
        ensures
            c.fresh(kind, order@),
    {
        Collection { kind, order, next: 0, round: Round::new(), partials: Vec::new() }
    }

    /// Moves on by one: whom to call, or that there is nothing to do for this
    /// one, or that the round is over. `past_deadline` says whether the round's
    /// time is up.
    pub fn step(&mut self, peers: &[PeerEndpoint], past_deadline: bool) -> (step: RoundStep)
        ensures
            steps(*old(self), peers@, past_deadline, *final(self), step),
    {
        let satisfied: bool = match self.kind {
            RoundKind::Open { threshold } => self.round.reached(threshold),
            RoundKind::Payout => false,
            RoundKind::Sweep { threshold } => self.partials.len() >= threshold,
        };
        if satisfied || self.next >= self.order.len() {
            return RoundStep::Finished;
        }
        let key: Pubkey = self.order[self.next];
        self.next = self.next + 1;
        match find_peer(peers, &key) {
            None => {
                match self.kind {
                    RoundKind::Open { .. } => {},
                    RoundKind::Payout => {
                        let why: String = String::from_str(
                            "designated signer is not a configured peer",
                        );
                        self.round.record(key, PeerOutcome::Unavailable(why));
                    },
                    RoundKind::Sweep { .. } => {
                        let why: String = String::from_str("vault signer is not a configured peer");
                        self.round.record(key, PeerOutcome::Unavailable(why));
                    },
                }
                RoundStep::Skipped
            },
            Some(i) => {
                if past_deadline {
                    let why: String = String::from_str("round timeout");
                    self.round.record(key, PeerOutcome::Unavailable(why));
                    RoundStep::Skipped
                } else {
                    RoundStep::Ask(i)
                }
            },
        }
    }

    /// Records what asking the last one came to.
    pub fn record(&mut self, outcome: PeerOutcome)
        requires
            0 < old(self).next <= old(self).order@.len(),
        ensures
            final(self).kind == old(self).kind,
            final(self).order == old(self).order,
            final(self).next == old(self).next,
            final(self).partials == old(self).partials,
            final(self).round@ == old(self).round@.with(
                old(self).order@[old(self).next - 1]@,
                outcome,
            ),
    {
        let key: Pubkey = self.order[self.next - 1];
        self.round.record(key, outcome);
    }

    /// Whether every partial signature is under the vault key of one of these
    /// signers.
    pub open spec fn keyed_by(self, signers: Seq<DesignatedSigner>) -> bool {
        forall|i: int| 0 <= i < self.partials@.len() ==> holds_key(signers, #[trigger] self.partials@[i])
    }

    /// Records what calling the last vault signer brought. The reply is held
    /// against the designated signer whose turn it was, and no other.
    pub fn record_vault_reply(
        &mut self,
        signers: &[DesignatedSigner],
        reply: PeerReply<PayoutSignResponse>,
    )
        requires
            0 < old(self).next <= old(self).order@.len(),
            old(self).order@ == validators_of(signers@),
        ensures
            final(self).kind == old(self).kind,
            final(self).order == old(self).order,
            final(self).next == old(self).next,
            old(self).keyed_by(signers@) ==> final(self).keyed_by(signers@),
            ({
                let signer = signers@[old(self).next - 1];
                exists|answer: Result<PartialSignature, PeerOutcome>| #[trigger]
                    judged(signer.validator_pubkey@, signer.vault_pubkey@, reply, answer)
                        && match answer {
                        Ok(partial) => {
                            &&& partial.vault_pubkey@ == signer.vault_pubkey@
                            &&& final(self).partials@ == old(self).partials@.push(partial)
                            &&& exists|marker: Signature| #[trigger]
                                is_blank(marker) && final(self).round@ == old(self).round@.with(
                                    signer.validator_pubkey@,
                                    PeerOutcome::Signed(marker),
                                )
                        },
                        Err(outcome) => {
                            &&& final(self).partials == old(self).partials
                            &&& final(self).round@ == old(self).round@.with(
                                signer.validator_pubkey@,
                                outcome,
                            )
                        },
                    }
            }),
    {
        let signer: &DesignatedSigner = &signers[self.next - 1];
        assert(old(self).order@[old(self).next - 1] == signer.validator_pubkey);
        let ghost brought = reply;
        let answer: Result<PartialSignature, PeerOutcome> = GrpcCollector::judge_payout(
            &signer.validator_pubkey,
            signer,
            reply,
        );
        let ghost verdict = answer;
        assert(judged(
            signer.validator_pubkey@,
            signer.vault_pubkey@,
            brought,
            verdict,
        ));
        proof {
            if let Ok(partial) = verdict {
                assert(holds_key(signers@, partial)) by {
                    assert(signers@[old(self).next - 1].vault_pubkey@ == partial.vault_pubkey@);
                }
            }
        }
        self.record_partial(answer);
    }

    /// Records what asking the last vault signer came to. A signer that
    /// answered counts under its federation key; its signatures are verified
    /// during assembly.
    fn record_partial(&mut self, answer: Result<PartialSignature, PeerOutcome>)
        requires
            0 < old(self).next <= old(self).order@.len(),
        ensures
            final(self).kind == old(self).kind,
            final(self).order == old(self).order,
            final(self).next == old(self).next,
            match answer {
                Ok(partial) => {
                    &&& final(self).partials@ == old(self).partials@.push(partial)
                    &&& exists|marker: Signature| #[trigger]
                        is_blank(marker) && final(self).round@ == old(self).round@.with(
                            old(self).order@[old(self).next - 1]@,
                            PeerOutcome::Signed(marker),
                        )
                },
                Err(outcome) => {
                    &&& final(self).partials == old(self).partials
                    &&& final(self).round@ == old(self).round@.with(
                        old(self).order@[old(self).next - 1]@,
                        outcome,
                    )
                },
            },
    {
        let key: Pubkey = self.order[self.next - 1];
        match answer {
            Ok(partial) => {
                let marker: Signature = Signature { bytes: [0u8; 64] };
                assert(is_blank(marker));
                self.round.record(key, PeerOutcome::Signed(marker));
                self.partials.push(partial);
            },
            Err(outcome) => {
                self.round.record(key, outcome);
            },
        }
    }

    /// The outcome of a round of vault signatures.
    pub fn into_partials(self) -> (result: PartialRound)
        ensures
            result.partials == self.partials,
            result.round == self.round,
    {
        PartialRound { partials: self.partials, round: self.round }
    }
}

/// Whether a signature is the mark of one that is verified elsewhere.
pub open spec fn is_blank(signature: Signature) -> bool {
    forall|i: int| 0 <= i < 64 ==> signature.bytes@[i] == 0
}

/// Whether a partial signature is under the vault key of one of these signers.
pub open spec fn holds_key(signers: Seq<DesignatedSigner>, partial: PartialSignature) -> bool {
    exists|i: int|
        0 <= i < signers.len() && (#[trigger] signers[i]).vault_pubkey@ == partial.vault_pubkey@
}

/// One step of a round.
pub open spec fn steps(
    before: Collection,
    peers: Seq<PeerEndpoint>,
    past_deadline: bool,
    after: Collection,
    step: RoundStep,
) -> bool {
    if before.finished() {
        step == RoundStep::Finished && after == before
    } else {
        let key = before.order@[before.next as int]@;
        &&& after.kind == before.kind
        &&& after.order == before.order
        &&& after.partials == before.partials
        &&& after.next == before.next + 1
        &&& match peer_of(peers, key) {
            None => step == RoundStep::Skipped && after.round@ == before.without_peer(key),
            Some(i) => if past_deadline {
                step == RoundStep::Skipped && after.round@ == before.round@.with_unavailable(
                    key,
                    "round timeout"@,
                )
            } else {
                (step matches RoundStep::Ask(k) && k == i) && after.round == before.round
            },
        }
    }
}

fn find_peer(peers: &[PeerEndpoint], key: &Pubkey) -> (found: Option<usize>)
    ensures
        match found {
            Some(i) => peer_of(peers@, key@) == Some(i as int) && i < peers@.len(),
            None => peer_of(peers@, key@) is None,
        },
{
    let mut i: usize = 0;
    assert(peers@.skip(0) =~= peers@);
    while i < peers.len()
        invariant
            i <= peers@.len(),
            peer_of(peers@, key@) == match peer_of(peers@.skip(i as int), key@) {
                Some(k) => Some(k + i),
                None => None,
            },
        decreases peers@.len() - i,
    {
        let ghost rest = peers@.skip(i as int);
        assert(rest.drop_first() =~= peers@.skip(i + 1));
        if peers[i].validator_pubkey.same_as(key) {
            return Some(i);
        }
        i = i + 1;
    }
    None
}

/// The first eight bytes of a hash as a number.
pub open spec fn low_word(bytes: Seq<u8>) -> u64 {
    le_value(bytes.subrange(0, 8)) as u64
}

fn low_word_of(bytes: &[u8; 32]) -> (word: u64)
    ensures
        word == low_word(bytes@),
{
    read_le(bytes, 0, 8)
}

/// Everyone, from a place that the seed picks.
pub open spec fn everyone(peers: Seq<PeerEndpoint>, seed: u64) -> Seq<Pubkey> {
    if peers.len() == 0 {
        Seq::empty()
    } else {
        rotated(identities_of(peers), seed as int % peers.len() as int)
    }
}

impl GrpcCollector {
    /// Starts a round that asks everyone until `threshold` different peers
    /// have signed.
    pub fn collect(&self, threshold: usize, seed: u64) -> (c: Collection)
        ensures
            c.fresh(RoundKind::Open { threshold }, everyone(self.peers@, seed)),
    {
        let keys: Vec<Pubkey> = self.identities();
        Collection::start(RoundKind::Open { threshold }, ask_order(keys.as_slice(), seed))
    }

    /// Starts a round for mint signatures.
    ///
    /// The threshold is everyone: the on-chain set is the authority on it, and
    /// one cached here could go stale across a rotation.
    pub fn collect_mint_signatures(&self, txid: &[u8; 32], vout: u32) -> (c: Collection)
        ensures
            c.fresh(
                RoundKind::Open { threshold: self.peers@.len() as usize },
                everyone(self.peers@, low_word(txid@) ^ (vout as u64)),
            ),
    {
        self.collect(self.peers.len(), low_word_of(txid) ^ (vout as u64))
    }

    /// Starts a round for completion attestations. Any threshold of validators
    /// that confirmed the payout may attest, so everyone is asked.
    pub fn collect_completion_signatures(
        &self,
        withdrawal_index: u64,
        payout_txid: &[u8; 32],
    ) -> (c: Collection)
        ensures
            c.fresh(
                RoundKind::Open { threshold: self.peers@.len() as usize },
                everyone(self.peers@, withdrawal_index ^ low_word(payout_txid@)),
            ),
    {
        self.collect(self.peers.len(), withdrawal_index ^ low_word_of(payout_txid))
    }

    /// Starts a round for governance signatures. Any threshold of operators
    /// that staged an approval may authorise an action, so everyone is asked.
    pub fn collect_governance_signatures(&self, action: u8, params_commitment: &[u8; 32]) -> (c:
        Collection)
        ensures
            c.fresh(
                RoundKind::Open { threshold: self.peers@.len() as usize },
                everyone(self.peers@, (action as u64) ^ low_word(params_commitment@)),
            ),
    {
        self.collect(self.peers.len(), (action as u64) ^ low_word_of(params_commitment))
    }

    /// Starts a round for payout signatures from exactly the designated
    /// signers.
    pub fn collect_payout_signatures(&self, designated: &[Pubkey]) -> (c: Collection)
        ensures
            c.fresh(RoundKind::Payout, designated@),
    {
        let order: Vec<Pubkey> = vstd::slice::slice_to_vec(designated);
        Collection::start(RoundKind::Payout, order)
    }

    /// Starts a round for vault signatures from exactly the designated
    /// signers.
    pub fn collect_payout_partials(&self, designated: &[DesignatedSigner]) -> (c: Collection)
        ensures
            c.fresh(RoundKind::Payout, validators_of(designated@)),
    {
        Collection::start(RoundKind::Payout, validator_keys(designated))
    }

    /// Starts a round for sweep signatures from the vault's signers.
    pub fn collect_sweep_partials(&self, signers: &[DesignatedSigner], threshold: usize) -> (c:
        Collection)
        ensures
            c.fresh(RoundKind::Sweep { threshold }, validators_of(signers@)),
    {
        Collection::start(RoundKind::Sweep { threshold }, validator_keys(signers))
    }
}

/// The federation keys of some signers.
pub open spec fn validators_of(signers: Seq<DesignatedSigner>) -> Seq<Pubkey> {
    signers.map_values(|s: DesignatedSigner| s.validator_pubkey)
}

fn validator_keys(signers: &[DesignatedSigner]) -> (keys: Vec<Pubkey>)
    ensures
        keys@ == validators_of(signers@),
{
    let mut keys: Vec<Pubkey> = Vec::new();
    let mut i: usize = 0;
    while i < signers.len()
        invariant
            i <= signers@.len(),
            keys@ == validators_of(signers@.take(i as int)),
        decreases signers@.len() - i,
    {
        keys.push(signers[i].validator_pubkey);
        i = i + 1;
        assert(keys@ =~= validators_of(signers@.take(i as int)));
    }
    assert(signers@.take(signers@.len() as int) =~= signers@);
    keys
}

proof fn lemma_peer_of(peers: Seq<PeerEndpoint>, key: Seq<u8>)
    ensures
        peer_of(peers, key) matches Some(i) ==> 0 <= i < peers.len()
            && peers[i].validator_pubkey@ == key,
    decreases peers.len(),
{
    if peers.len() > 0 && peers[0].validator_pubkey@ != key {
        lemma_peer_of(peers.drop_first(), key);
    }
}

/// Only those in the order are ever called, each at its place: a peer that was
/// not designated is never substituted for one that is down.
pub proof fn only_those_in_the_order_are_asked(
    before: Collection,
    peers: Seq<PeerEndpoint>,
    past_deadline: bool,
    after: Collection,
    i: usize,
)
    requires
        steps(before, peers, past_deadline, after, RoundStep::Ask(i)),
    ensures
        i < peers.len(),
        before.next < before.order@.len(),
        peers[i as int].validator_pubkey@ == before.order@[before.next as int]@,
{
    lemma_peer_of(peers, before.order@[before.next as int]@);
}

/// From its start a round of vault signatures holds only partial signatures
/// under the keys of its designated signers: asking adds none, and a reply adds
/// one only under the key of the signer whose turn it was.
pub proof fn only_designated_keys_sign(
    before: Collection,
    peers: Seq<PeerEndpoint>,
    past_deadline: bool,
    after: Collection,
    step: RoundStep,
    signers: Seq<DesignatedSigner>,
)
    requires
        steps(before, peers, past_deadline, after, step),
    ensures
        before.fresh(before.kind, before.order@) ==> before.keyed_by(signers),
        before.keyed_by(signers) ==> after.keyed_by(signers),
{
}

/// Nobody is called once enough have signed, or once the round's time is up.
pub proof fn a_satisfied_round_asks_nobody(
    before: Collection,
    peers: Seq<PeerEndpoint>,
    past_deadline: bool,
    after: Collection,
    step: RoundStep,
)
    requires
        steps(before, peers, past_deadline, after, step),
        before.satisfied() || past_deadline,
    ensures
        !(step is Ask),
{
}

/// A round ends: every step that does not finish it moves on to the next one.
pub proof fn a_round_moves_on(
    before: Collection,
    peers: Seq<PeerEndpoint>,
    past_deadline: bool,
    after: Collection,
    step: RoundStep,
)
    requires
        steps(before, peers, past_deadline, after, step),
    ensures
        step == RoundStep::Finished <==> before.finished(),
        step != RoundStep::Finished ==> after.next == before.next + 1 <= before.order@.len(),
{
}

/// A designated signer that is not a configured peer is a shortfall under its
/// own name.
pub proof fn a_missing_designated_signer_is_a_shortfall(
    before: Collection,
    peers: Seq<PeerEndpoint>,
    past_deadline: bool,
    after: Collection,
    step: RoundStep,
)
    requires
        steps(before, peers, past_deadline, after, step),
        before.kind == RoundKind::Payout,
        before.next < before.order@.len(),
        peer_of(peers, before.order@[before.next as int]@) is None,
    ensures
        after.round@.signed == before.round@.signed,
        after.round@.unavailable == before.round@.unavailable.push(
            (
                before.order@[before.next as int]@,
                "designated signer is not a configured peer"@,
            ),
        ),
{
}

/// A vault answer is accepted exactly where it comes from the key that was
/// asked, carries the designated vault key, and holds signatures, however many,
/// none of them empty.
pub proof fn a_consistent_vault_answer_is_accepted(
    expected: Seq<u8>,
    vault_pubkey: Seq<u8>,
    resp: PayoutSignResponse,
)
    requires
        expected.len() == 32,
        vault_pubkey.len() == 33,
    ensures
        payout_fault(expected, vault_pubkey, resp) is None <==> {
            &&& resp.validator_pubkey@ == expected
            &&& resp.vault_pubkey@ == vault_pubkey
            &&& resp.signatures@.len() > 0
            &&& forall|i: int|
                0 <= i < resp.signatures@.len() ==> (#[trigger] resp.signatures@[i])@.len() > 0
        },
{
}

/// What becomes of a vault signer's reply: a consistent answer gives a partial
/// signature under the designated key with exactly the signatures it holds; a
/// failed precondition is a refusal in the peer's own words; anything else is
/// unavailability.
pub proof fn a_vault_reply_comes_to_what_it_says(
    expected: Seq<u8>,
    vault_pubkey: Seq<u8>,
    reply: PeerReply<PayoutSignResponse>,
    result: Result<PartialSignature, PeerOutcome>,
)
    requires
        expected.len() == 32,
        vault_pubkey.len() == 33,
        judged(expected, vault_pubkey, reply, result),
    ensures
        result is Ok <==> {
            &&& reply matches PeerReply::Answer(resp)
            &&& resp.validator_pubkey@ == expected
            &&& resp.vault_pubkey@ == vault_pubkey
            &&& resp.signatures@.len() > 0
            &&& forall|i: int|
                0 <= i < resp.signatures@.len() ==> (#[trigger] resp.signatures@[i])@.len() > 0
        },
        result matches Ok(partial) ==> {
            &&& partial.vault_pubkey@ == vault_pubkey
            &&& reply matches PeerReply::Answer(resp)
            &&& partial.signatures == resp.signatures
        },
        (result matches Err(PeerOutcome::Refused(_))) <==> (reply matches PeerReply::Status {
            failed_precondition,
            ..
        } && failed_precondition),
        result matches Err(PeerOutcome::Refused(why)) ==> {
            &&& reply matches PeerReply::Status { message, .. }
            &&& why == message
        },
        !(result matches Err(PeerOutcome::Signed(_))),
{
    if let PeerReply::Answer(resp) = reply {
        a_consistent_vault_answer_is_accepted(expected, vault_pubkey, resp);
    }
}

/// An answer is accepted exactly where it comes from the key that was asked and
/// its signature has the length of one and verifies.
pub proof fn a_consistent_answer_is_accepted(
    expected: Seq<u8>,
    resp: SignResponse,
    verified: bool,
)
    requires
        expected.len() == 32,
    ensures
        response_fault(expected, resp, verified) is None <==> resp.validator_pubkey@ == expected
            && resp.signature@.len() == 64 && verified,
{
}

/// A peer that answers with a status refused exactly where a precondition
/// failed, and is unavailable otherwise, each time in the peer's own words.
pub proof fn only_a_failed_precondition_is_a_refusal(
    failed_precondition: bool,
    message: String,
    text: String,
)
    ensures
        failed_precondition <==> status_outcome(failed_precondition, message, text)
            == PeerOutcome::Refused(message),
        !failed_precondition <==> status_outcome(failed_precondition, message, text)
            == PeerOutcome::Unavailable(text),
{
}

/// The one whose turn it is is called exactly where the round is not over, its
/// time is not up, and it is a configured peer; nobody is passed over. Calling
/// records nothing yet.
pub proof fn whose_turn_it_is_is_called(
    before: Collection,
    peers: Seq<PeerEndpoint>,
    past_deadline: bool,
    after: Collection,
    step: RoundStep,
)
    requires
        steps(before, peers, past_deadline, after, step),
    ensures
        step is Ask <==> {
            &&& !before.satisfied()
            &&& before.next < before.order@.len()
            &&& !past_deadline
            &&& exists|i: int|
                0 <= i < peers.len() && (#[trigger] peers[i]).validator_pubkey@
                    == before.order@[before.next as int]@
        },
        step is Ask ==> after.round == before.round && after.next == before.next + 1,
        step matches RoundStep::Ask(k) ==> k < peers.len() && peers[k as int].validator_pubkey@
            == before.order@[before.next as int]@ && forall|i: int|
            0 <= i < k ==> (#[trigger] peers[i]).validator_pubkey@
                != before.order@[before.next as int]@,
        after.partials == before.partials,
        after.order == before.order,
        after.kind == before.kind,
        after.round@.signed == before.round@.signed,
        after.round@.refused == before.round@.refused,
{
    if before.next < before.order@.len() {
        lemma_first_peer(peers, before.order@[before.next as int]@);
    }
}

/// The peer that is found is the first with the key, and none is found only
/// where none has it.
proof fn lemma_first_peer(peers: Seq<PeerEndpoint>, key: Seq<u8>)
    ensures
        match peer_of(peers, key) {
            Some(k) => 0 <= k < peers.len() && peers[k].validator_pubkey@ == key && forall|i: int|
                0 <= i < k ==> (#[trigger] peers[i]).validator_pubkey@ != key,
            None => forall|i: int|
                0 <= i < peers.len() ==> (#[trigger] peers[i]).validator_pubkey@ != key,
        },
    decreases peers.len(),
{
    if peers.len() > 0 && peers[0].validator_pubkey@ != key {
        let rest = peers.drop_first();
        lemma_first_peer(rest, key);
        match peer_of(rest, key) {
            Some(k) => {
                assert(peers[k + 1] == rest[k]);
                assert forall|i: int| 0 <= i < k + 1 implies (
                #[trigger] peers[i]).validator_pubkey@ != key by {
                    if i > 0 {
                        assert(peers[i] == rest[i - 1]);
                    }
                }
            },
            None => {
                assert forall|i: int| 0 <= i < peers.len() implies (
                #[trigger] peers[i]).validator_pubkey@ != key by {
                    if i > 0 {
                        assert(peers[i] == rest[i - 1]);
                    }
                }
            },
        }
    }
}

/// An open round is over once as many different peers have signed as it needs,
/// a sweep's once as many vault signers have, and a payout's never before
/// everyone designated was asked.
pub proof fn a_round_is_over_when_enough_have_signed(c: Collection)
    ensures
        c.kind matches RoundKind::Open { threshold } ==> (c.satisfied() <==> c.round@.signers().to_set().len()
            >= threshold),
        c.kind matches RoundKind::Sweep { threshold } ==> (c.satisfied() <==> c.partials@.len()
            >= threshold),
        c.kind == RoundKind::Payout ==> !c.satisfied(),
        c.finished() <==> c.satisfied() || c.next >= c.order@.len(),
{
    crate::p2p::aggregation::every_signer_counts_once(c.round@.signers());
}

/// One who cannot be called is a shortfall under its own key, except that an
/// open round simply goes on to the next peer.
pub proof fn who_cannot_be_called_is_a_shortfall(
    before: Collection,
    peers: Seq<PeerEndpoint>,
    past_deadline: bool,
    after: Collection,
    step: RoundStep,
)
    requires
        steps(before, peers, past_deadline, after, step),
        step == RoundStep::Skipped,
    ensures
        before.next < before.order@.len(),
        ({
            let key = before.order@[before.next as int]@;
            let configured = exists|i: int|
                0 <= i < peers.len() && (#[trigger] peers[i]).validator_pubkey@ == key;
            &&& configured || !(before.kind is Open) ==> after.round@.unavailable.len()
                == before.round@.unavailable.len() + 1 && after.round@.unavailable.last().0 == key
            &&& configured ==> after.round@.unavailable.last().1 == "round timeout"@
            &&& !configured && before.kind is Open ==> after.round@ == before.round@
            &&& !configured && before.kind == RoundKind::Payout
                ==> after.round@.unavailable.last().1
                == "designated signer is not a configured peer"@
            &&& !configured && before.kind is Sweep ==> after.round@.unavailable.last().1
                == "vault signer is not a configured peer"@
        }),
{
    lemma_first_peer(peers, before.order@[before.next as int]@);
}

/// A round for everyone asks every configured peer once, from a place that the
/// seed picks.
pub proof fn a_round_for_everyone_leaves_nobody_out(peers: Seq<PeerEndpoint>, seed: u64)
    ensures
        everyone(peers, seed).to_multiset() == identities_of(peers).to_multiset(),
        everyone(peers, seed).len() == peers.len(),
        peers.len() > 0 ==> everyone(peers, seed)[0] == peers[seed as int % peers.len() as int].validator_pubkey,
{
    if peers.len() == 0 {
        assert(identities_of(peers) =~= Seq::empty());
    } else {
        let start = seed as int % peers.len() as int;
        crate::p2p::aggregation::the_order_asks_everyone_once(identities_of(peers), start);
    }
}

/// A signature that does not verify is never accepted, and one that does is
/// accepted as it was identified.
pub proof fn only_a_verified_signature_is_settled(
    identified: (Pubkey, Signature),
    verified: bool,
    result: Result<(Pubkey, Signature), String>,
)
    requires
        call_ensures(GrpcCollector::settle, (identified, verified), result),
    ensures
        result is Ok <==> verified,
        result matches Ok(found) ==> found == identified,
{
}

/// A round that is started anew has asked nobody and heard nothing.
pub proof fn a_new_round_starts_from_nothing(kind: RoundKind, order: Vec<Pubkey>, c: Collection)
    requires
        call_ensures(Collection::start, (kind, order), c),
    ensures
        c.kind == kind,
        c.order@ == order@,
        c.next == 0,
        c.partials@.len() == 0,
        c.round@.signed.len() == 0,
        c.round@.refused.len() == 0,
        c.round@.unavailable.len() == 0,
{
}

/// A round over a message asks every peer there is, and is over only once all of
/// them have signed. A round of designated signers asks exactly those, in their
/// order.
pub proof fn a_message_is_put_to_every_peer(
    collector: GrpcCollector,
    txid: &[u8; 32],
    vout: u32,
    mint: Collection,
    index: u64,
    completion: Collection,
    action: u8,
    governance: Collection,
)
    requires
        call_ensures(GrpcCollector::collect_mint_signatures, (&collector, txid, vout), mint),
        call_ensures(
            GrpcCollector::collect_completion_signatures,
            (&collector, index, txid),
            completion,
        ),
        call_ensures(
            GrpcCollector::collect_governance_signatures,
            (&collector, action, txid),
            governance,
        ),
        collector.peers@.len() <= usize::MAX,
    ensures
        mint.kind matches RoundKind::Open { threshold } && threshold == collector.peers@.len(),
        completion.kind matches RoundKind::Open { threshold } && threshold
            == collector.peers@.len(),
        governance.kind matches RoundKind::Open { threshold } && threshold
            == collector.peers@.len(),
        mint.order@.to_multiset() == identities_of(collector.peers@).to_multiset(),
        completion.order@.to_multiset() == identities_of(collector.peers@).to_multiset(),
        governance.order@.to_multiset() == identities_of(collector.peers@).to_multiset(),
{
    a_round_for_everyone_leaves_nobody_out(collector.peers@, low_word(txid@) ^ (vout as u64));
    a_round_for_everyone_leaves_nobody_out(collector.peers@, index ^ low_word(txid@));
    a_round_for_everyone_leaves_nobody_out(collector.peers@, (action as u64) ^ low_word(txid@));
}

/// The designated signers are asked in the order in which they are designated,
/// none of them left out, and as many have to sign as the round is of.
pub proof fn the_designated_are_asked_in_their_order(
    collector: GrpcCollector,
    keys: &[Pubkey],
    signatures: Collection,
    signers: &[DesignatedSigner],
    payout: Collection,
    threshold: usize,
    sweep: Collection,
    i: int,
)
    requires
        call_ensures(GrpcCollector::collect_payout_signatures, (&collector, keys), signatures),
        call_ensures(GrpcCollector::collect_payout_partials, (&collector, signers), payout),
        call_ensures(
            GrpcCollector::collect_sweep_partials,
            (&collector, signers, threshold),
            sweep,
        ),
    ensures
        signatures.kind is Payout && signatures.order@ == keys@,
        payout.kind is Payout && payout.order@.len() == signers@.len(),
        sweep.kind == (RoundKind::Sweep { threshold }) && sweep.order@.len() == signers@.len(),
        0 <= i < signers@.len() ==> payout.order@[i] == signers@[i].validator_pubkey
            && sweep.order@[i] == signers@[i].validator_pubkey,
{
}

/// The word that picks where a round begins is spelled by the first eight bytes
/// of the hash, the least significant one first.
pub proof fn the_seed_is_the_first_word(bytes: Seq<u8>)
    requires
        bytes.len() >= 8,
    ensures
        low_word(bytes) == bytes[0] + 0x100 * bytes[1] + 0x1_0000 * bytes[2] + 0x100_0000 * bytes[3]
            + 0x1_0000_0000 * bytes[4] + 0x100_0000_0000 * bytes[5] + 0x1_0000_0000_0000 * bytes[6]
            + 0x100_0000_0000_0000 * bytes[7],
{
    let word = bytes.subrange(0, 8);
    reveal_with_fuel(le_value, 9);
    let a = word.drop_first();
    let b = a.drop_first();
    let c = b.drop_first();
    let d = c.drop_first();
    let e = d.drop_first();
    let f = e.drop_first();
    let g = f.drop_first();
    assert(g.drop_first().len() == 0);
}

/// A round over a message begins at the place that the message picks, so that
/// not every round asks the same peer first.
pub proof fn a_round_begins_where_its_message_says(
    collector: GrpcCollector,
    txid: &[u8; 32],
    vout: u32,
    mint: Collection,
    index: u64,
    completion: Collection,
    action: u8,
    governance: Collection,
    threshold: usize,
    seed: u64,
    open: Collection,
)
    requires
        collector.peers@.len() > 0,
        call_ensures(GrpcCollector::collect_mint_signatures, (&collector, txid, vout), mint),
        call_ensures(
            GrpcCollector::collect_completion_signatures,
            (&collector, index, txid),
            completion,
        ),
        call_ensures(
            GrpcCollector::collect_governance_signatures,
            (&collector, action, txid),
            governance,
        ),
        call_ensures(GrpcCollector::collect, (&collector, threshold, seed), open),
    ensures
        ({
            let n = collector.peers@.len() as int;
            let word = low_word(txid@);
            &&& mint.order@[0] == collector.peers@[((word ^ (vout as u64)) as int)
                % n].validator_pubkey
            &&& completion.order@[0] == collector.peers@[((index ^ word) as int)
                % n].validator_pubkey
            &&& governance.order@[0] == collector.peers@[(((action as u64) ^ word) as int)
                % n].validator_pubkey
            &&& open.order@[0] == collector.peers@[(seed as int) % n].validator_pubkey
            &&& open.kind == (RoundKind::Open { threshold })
            &&& open.order@.len() == n
        }),
{
    let word = low_word(txid@);
    a_round_for_everyone_leaves_nobody_out(collector.peers@, word ^ (vout as u64));
    a_round_for_everyone_leaves_nobody_out(collector.peers@, index ^ word);
    a_round_for_everyone_leaves_nobody_out(collector.peers@, (action as u64) ^ word);
    a_round_for_everyone_leaves_nobody_out(collector.peers@, seed);
}

/// An endpoint that answers as somebody else is named with both keys.
pub proof fn an_impostor_is_named(expected: Seq<u8>, answered: Seq<u8>)
    ensures
        shows(impostor_text(expected, answered), base58_text(expected)),
        shows(impostor_text(expected, answered), base58_text(answered)),
{
    lemma_shows_both(
        "endpoint registered as "@,
        base58_text(expected),
        " answered as "@,
        base58_text(answered),
    );
}

} // verus!
