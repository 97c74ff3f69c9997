//! What a peer is asked to sign.
//!
//! Every request carries an id of its own and expires: a request that was
//! captured is of no use later.

use crate::bytes::{le_bytes, lemma_le_bytes_injective, pow256, push_all};
use crate::p2p::collector::GrpcCollector;
use vstd::prelude::*;

verus! {

/// When a request is made, and how long it holds.
#[derive(Debug, Clone, Copy, PartialEq, Eq, Structural)]
pub struct Stamp {
    /// The time in nanoseconds.
    pub nanos: u128,
    /// The time in seconds.
    pub now_unix: i64,
    pub ttl_seconds: i64,
}

impl Stamp {
    /// Whether the expiry is a time.
    pub open spec fn wf(self) -> bool {
        i64::MIN <= self.now_unix + self.ttl_seconds <= i64::MAX
    }

    /// The id of a request made at this time.
    pub open spec fn id(self) -> Seq<u8> {
        le_bytes(self.nanos as nat, 16)
    }

    /// When a request made at this time expires.
    pub open spec fn expiry(self) -> int {
        self.now_unix + self.ttl_seconds
    }
}

/// A request for a signature over a message, and what the message is about.
#[derive(Debug, PartialEq, Eq)]
pub struct MessageRequest {
    pub request_id: Vec<u8>,
    pub epoch: u64,
    pub message: Vec<u8>,
    pub subject: Subject,
}

/// What a message is about.
#[derive(Debug, Clone, Copy, PartialEq, Eq)]
pub enum Subject {
    /// Minting for a deposit.
    Mint { txid: [u8; 32], vout: u32 },
    /// Paying a withdrawal out.
    Payout { withdrawal_index: u64, quorum_attempt: u32 },
}

/// A request for vault signatures of a payout.
#[derive(Debug, PartialEq, Eq)]
pub struct PayoutSignRequest {
    pub request_id: Vec<u8>,
    pub epoch: u64,
    pub withdrawal_index: u64,
    pub quorum_attempt: u32,
    pub canonical_intent: Vec<u8>,
    pub unsigned_tx_hex: String,
    pub expiry_unix: i64,
    pub proposer_index: u32,
}

/// A request for vault signatures of a sweep. It holds nothing but the
/// transaction: what it spends, the signer knows from its own view.
#[derive(Debug, PartialEq, Eq)]
pub struct SweepSignRequest {
    pub request_id: Vec<u8>,
    pub epoch: u64,
    pub unsigned_tx_hex: String,
    pub expiry_unix: i64,
}

/// A request to attest that a payout is complete.
#[derive(Debug, PartialEq, Eq)]
pub struct CompletionSignRequest {
    pub request_id: Vec<u8>,
    pub epoch: u64,
    pub withdrawal_index: u64,
    pub payout_txid: Vec<u8>,
    pub payout_height: u64,
    pub expiry_unix: i64,
}

/// A request to authorise a governance action.
#[derive(Debug, PartialEq, Eq)]
pub struct GovernanceSignRequest {
    pub request_id: Vec<u8>,
    pub epoch: u64,
    pub action: u32,
    pub params_commitment: Vec<u8>,
    pub expiry_unix: i64,
}

fn copied(bytes: &[u8]) -> (copy: Vec<u8>)
    ensures
        copy@ == bytes@,
{
    let mut copy: Vec<u8> = Vec::new();
    push_all(&mut copy, bytes);
    assert(copy@ =~= bytes@);
    copy
}

/// Asks for a signature over a message.
pub fn message_request(stamp: Stamp, epoch: u64, message: &[u8], subject: Subject) -> (req:
    MessageRequest)
    ensures
        req.request_id@ == stamp.id(),
        req.epoch == epoch,
        req.message@ == message@,
        req.subject == subject,
{
    MessageRequest {
        request_id: GrpcCollector::next_request_id(stamp.nanos),
        epoch,
        message: copied(message),
        subject,
    }
}

/// Asks a designated signer for its vault signatures of a payout.
pub fn payout_request(
    stamp: Stamp,
    epoch: u64,
    withdrawal_index: u64,
    quorum_attempt: u32,
    canonical_intent: &[u8],
    unsigned_tx_hex: &str,
    proposer_index: u32,
) -> (req: PayoutSignRequest)
    requires
        stamp.wf(),
    ensures
        req.request_id@ == stamp.id(),
        req.epoch == epoch,
        req.withdrawal_index == withdrawal_index,
        req.quorum_attempt == quorum_attempt,
        req.canonical_intent@ == canonical_intent@,
        req.unsigned_tx_hex@ == unsigned_tx_hex@,
        req.expiry_unix == stamp.expiry(),
        req.proposer_index == proposer_index,
{
    PayoutSignRequest {
        request_id: GrpcCollector::next_request_id(stamp.nanos),
        epoch,
        withdrawal_index,
        quorum_attempt,
        canonical_intent: copied(canonical_intent),
        unsigned_tx_hex: String::from_str(unsigned_tx_hex),
        expiry_unix: stamp.now_unix + stamp.ttl_seconds,
        proposer_index,
    }
}

/// Asks a vault signer for its signatures of a sweep.
pub fn sweep_request(stamp: Stamp, epoch: u64, unsigned_tx_hex: &str) -> (req: SweepSignRequest)
    requires
        stamp.wf(),
    ensures
        req.request_id@ == stamp.id(),
        req.epoch == epoch,
        req.unsigned_tx_hex@ == unsigned_tx_hex@,
        req.expiry_unix == stamp.expiry(),
{
    SweepSignRequest {
        request_id: GrpcCollector::next_request_id(stamp.nanos),
        epoch,
        unsigned_tx_hex: String::from_str(unsigned_tx_hex),
        expiry_unix: stamp.now_unix + stamp.ttl_seconds,
    }
}

/// Asks a validator to attest that a payout is complete.
pub fn completion_request(
    stamp: Stamp,
    epoch: u64,
    withdrawal_index: u64,
    payout_txid: &[u8; 32],
    payout_height: u64,
) -> (req: CompletionSignRequest)
    requires
        stamp.wf(),
    ensures
        req.request_id@ == stamp.id(),
        req.epoch == epoch,
        req.withdrawal_index == withdrawal_index,
        req.payout_txid@ == payout_txid@,
        req.payout_height == payout_height,
        req.expiry_unix == stamp.expiry(),
{
    CompletionSignRequest {
        request_id: GrpcCollector::next_request_id(stamp.nanos),
        epoch,
        withdrawal_index,
        payout_txid: copied(payout_txid),
        payout_height,
        expiry_unix: stamp.now_unix + stamp.ttl_seconds,
    }
}

/// Asks a validator to authorise a governance action.
pub fn governance_request(
    stamp: Stamp,
    epoch: u64,
    action: u8,
    params_commitment: &[u8; 32],
) -> (req: GovernanceSignRequest)
    requires
        stamp.wf(),
    ensures
        req.request_id@ == stamp.id(),
        req.epoch == epoch,
        req.action == action,
        req.params_commitment@ == params_commitment@,
        req.expiry_unix == stamp.expiry(),
{
    GovernanceSignRequest {
        request_id: GrpcCollector::next_request_id(stamp.nanos),
        epoch,
        action: action as u32,
        params_commitment: copied(params_commitment),
        expiry_unix: stamp.now_unix + stamp.ttl_seconds,
    }
}

/// Requests that are made at different times have different ids: a retry can be
/// told from a fresh request.
pub proof fn requests_are_told_apart(a: Stamp, b: Stamp)
    requires
        a.nanos != b.nanos,
    ensures
        a.id() != b.id(),
{
    reveal_with_fuel(pow256, 17);
    if a.id() == b.id() {
        lemma_le_bytes_injective(a.nanos as nat, b.nanos as nat, 16);
    }
}

/// A request holds for as long as it is said to, and its id is the time at which
/// it was made, in sixteen bytes.
pub proof fn a_request_expires_when_its_time_is_up(stamp: Stamp)
    ensures
        stamp.expiry() - stamp.now_unix == stamp.ttl_seconds,
        stamp.wf() <==> i64::MIN <= stamp.expiry() <= i64::MAX,
        stamp.id().len() == 16,
        crate::bytes::le_value(stamp.id()) == stamp.nanos,
{
    reveal_with_fuel(pow256, 17);
    crate::bytes::lemma_le_bytes_len(stamp.nanos as nat, 16);
    crate::bytes::lemma_le_value_of_le_bytes(stamp.nanos as nat, 16);
}

/// A request is about what it is made for, and expires when its time is up.
pub proof fn a_request_is_about_what_it_is_made_for(
    stamp: Stamp,
    epoch: u64,
    index: u64,
    txid: &[u8; 32],
    height: u64,
    action: u8,
    completion: CompletionSignRequest,
    governance: GovernanceSignRequest,
)
    requires
        stamp.wf(),
        call_ensures(completion_request, (stamp, epoch, index, txid, height), completion),
        call_ensures(governance_request, (stamp, epoch, action, txid), governance),
    ensures
        completion.epoch == epoch && governance.epoch == epoch,
        completion.withdrawal_index == index,
        completion.payout_txid@ == txid@,
        completion.payout_height == height,
        governance.action == action,
        governance.params_commitment@ == txid@,
        completion.expiry_unix - stamp.now_unix == stamp.ttl_seconds,
        governance.expiry_unix - stamp.now_unix == stamp.ttl_seconds,
        completion.request_id@ == governance.request_id@,
{
}

/// A request for vault signatures carries the transaction as it is, and expires
/// when its time is up.
pub proof fn a_vault_request_carries_its_transaction(
    stamp: Stamp,
    epoch: u64,
    index: u64,
    attempt: u32,
    intent: &[u8],
    unsigned: &str,
    proposer: u32,
    payout: PayoutSignRequest,
    sweep: SweepSignRequest,
)
    requires
        stamp.wf(),
        call_ensures(
            payout_request,
            (stamp, epoch, index, attempt, intent, unsigned, proposer),
            payout,
        ),
        call_ensures(sweep_request, (stamp, epoch, unsigned), sweep),
    ensures
        payout.epoch == epoch && sweep.epoch == epoch,
        payout.withdrawal_index == index,
        payout.quorum_attempt == attempt,
        payout.canonical_intent@ == intent@,
        payout.unsigned_tx_hex@ == unsigned@ && sweep.unsigned_tx_hex@ == unsigned@,
        payout.proposer_index == proposer,
        payout.expiry_unix - stamp.now_unix == stamp.ttl_seconds,
        sweep.expiry_unix - stamp.now_unix == stamp.ttl_seconds,
{
}

} // verus!
