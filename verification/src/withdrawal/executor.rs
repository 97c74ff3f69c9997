//! The withdrawal executor: what a relayer does about each withdrawal.
//!
//! Every pass reconciles what a node can be asked about before it decides to
//! act. The authoritative question about a payout is whether its transaction
//! already exists on the Goldcoin chain, and the transaction id is durable
//! before the first broadcast, so a lost answer can always be recovered.
//!
//! The decisions are here, one step at a time: each takes what came back from
//! the database, a node, or the signers, and says what to do next.

use crate::bytes::same_bytes;
use crate::glc::hex::hex_text;
use crate::glc::rpc::RpcError;
use crate::glc::withdrawal_db::{VaultUtxo, WithdrawalRow, WithdrawalState};
use crate::withdrawal::address::{
    decode_p2pkh_hash160, p2pkh_script, p2pkh_script_hex, payable, AddressError,
};
use crate::withdrawal::builder::{DecodedInput, DecodedOutput, DecodedTx};
use crate::withdrawal::config::WithdrawalConfig;
use vstd::prelude::*;

verus! {

/// Why a pass over the withdrawals stopped.
#[derive(Debug, PartialEq, Eq)]
pub enum ExecutorError {
    NodeUnavailable(RpcError),
    Rpc(RpcError),
    Db(String),
    Verify(String),
    Assembly(String),
}

impl ExecutorError {
    /// The message shown to an operator.
    pub open spec fn text(self) -> Seq<char> {
        match self {
            ExecutorError::NodeUnavailable(e) => "Goldcoin node unavailable: "@ + e.text(),
            ExecutorError::Rpc(e) => "Goldcoin RPC error: "@ + e.text(),
            ExecutorError::Db(m) => "database error: "@ + m@,
            ExecutorError::Verify(m) => "payout verification failed: "@ + m@,
            ExecutorError::Assembly(m) => "multisig assembly failed: "@ + m@,
        }
    }

    /// The message shown to an operator.
    pub fn message(&self) -> (m: String)
        ensures
            m@ == self.text(),
    {
        let mut out: String = String::new();
        match self {
            ExecutorError::NodeUnavailable(e) => {
                out.append("Goldcoin node unavailable: ");
                out.append(e.message().as_str());
            },
            ExecutorError::Rpc(e) => {
                out.append("Goldcoin RPC error: ");
                out.append(e.message().as_str());
            },
            ExecutorError::Db(m) => {
                out.append("database error: ");
                out.append(m.as_str());
            },
            ExecutorError::Verify(m) => {
                out.append("payout verification failed: ");
                out.append(m.as_str());
            },
            ExecutorError::Assembly(m) => {
                out.append("multisig assembly failed: ");
                out.append(m.as_str());
            },
        }
        assert(out@ =~= self.text());
        out
    }
}

/// How a failed call to the node is reported.
pub open spec fn classified(e: RpcError) -> ExecutorError {
    if e is Transport {
        ExecutorError::NodeUnavailable(e)
    } else {
        ExecutorError::Rpc(e)
    }
}

/// Separates a node that cannot be reached from one that refuses.
pub fn classify(e: RpcError) -> (error: ExecutorError)
    ensures
        error == classified(e),
{
    if e.is_retriable() {
        ExecutorError::NodeUnavailable(e)
    } else {
        ExecutorError::Rpc(e)
    }
}

/// What happened to how many withdrawals in one pass.
#[derive(Debug, Clone, Copy, PartialEq, Eq, Structural)]
pub struct WithdrawalTickReport {
    pub observed: u32,
    pub validated: u32,
    pub awaiting_funds: u32,
    pub built: u32,
    pub signed: u32,
    pub broadcast: u32,
    pub confirming: u32,
    pub completed: u32,
    pub halted: u32,
    pub failed: u32,
    pub orphaned: u32,
}

impl Default for WithdrawalTickReport {
    /// Nothing happened yet.
    fn default() -> (report: Self)
        ensures
            report == (WithdrawalTickReport {
                observed: 0,
                validated: 0,
                awaiting_funds: 0,
                built: 0,
                signed: 0,
                broadcast: 0,
                confirming: 0,
                completed: 0,
                halted: 0,
                failed: 0,
                orphaned: 0,
            }),
    {
        WithdrawalTickReport {
            observed: 0,
            validated: 0,
            awaiting_funds: 0,
            built: 0,
            signed: 0,
            broadcast: 0,
            confirming: 0,
            completed: 0,
            halted: 0,
            failed: 0,
            orphaned: 0,
        }
    }
}

impl WithdrawalTickReport {
    /// Whether every counter can still count one more.
    pub open spec fn has_room(self) -> bool {
        &&& self.observed < u32::MAX
        &&& self.validated < u32::MAX
        &&& self.awaiting_funds < u32::MAX
        &&& self.built < u32::MAX
        &&& self.signed < u32::MAX
        &&& self.broadcast < u32::MAX
        &&& self.confirming < u32::MAX
        &&& self.completed < u32::MAX
        &&& self.halted < u32::MAX
        &&& self.failed < u32::MAX
        &&& self.orphaned < u32::MAX
    }
}

/// Why a withdrawal changed its state.
#[derive(Debug, PartialEq, Eq)]
pub enum Note {
    AddressMismatch,
    UndecodableAddress(AddressError),
    BelowDust,
    InsufficientFunds,
    OutputVerification(String),
    Assembly(String),
    TxidDisagrees,
    OutputsAltered(String),
    UnknownToNode,
    ReorgedAway,
    Rebroadcast,
}

impl Note {
    /// The text that is stored with the change.
    pub open spec fn text(self) -> Seq<char> {
        match self {
            Note::AddressMismatch => "stored address and hash160 disagree"@,
            Note::UndecodableAddress(e) => "undecodable destination address: "@ + e.text(),
            Note::BelowDust => "amount is below the dust threshold and can never be paid out"@,
            Note::InsufficientFunds => "insufficient spendable vault funds"@,
            Note::OutputVerification(m) => "output verification failed: "@ + m@,
            Note::Assembly(m) => "multisig assembly failed: "@ + m@,
            Note::TxidDisagrees => "assembled txid disagrees with the node's decoding"@,
            Note::OutputsAltered(m) => m@,
            Note::UnknownToNode => "payout transaction unknown to the node"@,
            Note::ReorgedAway => "payout block orphaned by a reorg"@,
            Note::Rebroadcast => "rebroadcast identical bytes after orphaning"@,
        }
    }

    /// The text that is stored with the change.
    pub fn message(&self) -> (m: String)
        ensures
            m@ == self.text(),
    {
        match self {
            Note::AddressMismatch => String::from_str("stored address and hash160 disagree"),
            Note::UndecodableAddress(e) => {
                let mut out: String = String::from_str("undecodable destination address: ");
                out.append(e.message().as_str());
                out
            },
            Note::BelowDust => String::from_str(
                "amount is below the dust threshold and can never be paid out",
            ),
            Note::InsufficientFunds => String::from_str("insufficient spendable vault funds"),
            Note::OutputVerification(m) => {
                let mut out: String = String::from_str("output verification failed: ");
                out.append(m.as_str());
                out
            },
            Note::Assembly(m) => {
                let mut out: String = String::from_str("multisig assembly failed: ");
                out.append(m.as_str());
                out
            },
            Note::TxidDisagrees => String::from_str(
                "assembled txid disagrees with the node's decoding",
            ),
            Note::OutputsAltered(m) => m.clone(),
            Note::UnknownToNode => String::from_str("payout transaction unknown to the node"),
            Note::ReorgedAway => String::from_str("payout block orphaned by a reorg"),
            Note::Rebroadcast => String::from_str("rebroadcast identical bytes after orphaning"),
        }
    }
}

/// A withdrawal's next state, and why.
#[derive(Debug, PartialEq, Eq)]
pub struct Transition {
    pub state: WithdrawalState,
    pub note: Option<Note>,
}

/// What a node says of a transaction that it knows.
#[derive(Debug, PartialEq, Eq)]
pub struct TxStatus {
    /// 0 while the transaction is only in the mempool.
    pub confirmations: i64,
    pub block_hash_hex: Option<String>,
    pub block_height: Option<i64>,
}

/// The executor of one relayer. It holds no vault key: it builds, assembles
/// and broadcasts, and the designated signers sign.
#[derive(Debug, PartialEq, Eq)]
pub struct WithdrawalExecutor {
    pub config: WithdrawalConfig,
    /// Whether another operator may be the one to build a payout. A single
    /// operator is designated for everything.
    pub assigned: bool,
    /// Whether the status on Solana is read before a payout is broadcast.
    pub checks_chain: bool,
}

/// How a stored withdrawal is judged, given what its address decodes to.
pub open spec fn judged(
    w: WithdrawalRow,
    dust: u64,
    decoded: Result<Seq<u8>, AddressError>,
) -> Transition {
    match decoded {
        Err(e) => Transition {
            state: WithdrawalState::Failed,
            note: Some(Note::UndecodableAddress(e)),
        },
        Ok(hash) => if hash != w.glc_address_hash160@ {
            Transition {
                state: WithdrawalState::IntegrityHalted,
                note: Some(Note::AddressMismatch),
            }
        } else if w.amount_atomic < dust {
            Transition { state: WithdrawalState::Failed, note: Some(Note::BelowDust) }
        } else {
            Transition { state: WithdrawalState::Validated, note: None }
        },
    }
}

/// The report after a withdrawal was judged.
pub open spec fn judgement_counted(
    report: WithdrawalTickReport,
    t: Transition,
) -> WithdrawalTickReport {
    match t.state {
        WithdrawalState::Validated => WithdrawalTickReport {
            validated: (report.validated + 1) as u32,
            ..report
        },
        WithdrawalState::Failed => WithdrawalTickReport {
            failed: (report.failed + 1) as u32,
            ..report
        },
        _ => WithdrawalTickReport { halted: (report.halted + 1) as u32, ..report },
    }
}

/// What one pass does, in order.
#[derive(Debug, Clone, Copy, PartialEq, Eq, Structural)]
pub enum TickTask {
    /// Refresh the vault's outputs from the node.
    SyncVault,
    /// Release reservations that never reached a payout.
    ReclaimReservations,
    /// Look up the transactions of the withdrawals in a state.
    Reconcile(WithdrawalState),
    /// Send the stored transactions of the withdrawals in a state again.
    Rebroadcast(WithdrawalState),
    Validate,
    /// Build payouts for the withdrawals in a state.
    Build(WithdrawalState),
    Sign,
    /// Send the transactions that have no confirmation yet.
    BroadcastNew,
}

impl TickTask {
    /// Whether the task only finds out what already happened.
    pub open spec fn looks_back(self) -> bool {
        self is SyncVault || self is ReclaimReservations || self is Reconcile
    }
}

/// The tasks of one pass.
pub open spec fn tick_tasks() -> Seq<TickTask> {
    seq![
        TickTask::SyncVault,
        TickTask::ReclaimReservations,
        TickTask::Reconcile(WithdrawalState::Broadcast),
        TickTask::Reconcile(WithdrawalState::Confirming),
        TickTask::Rebroadcast(WithdrawalState::Orphaned),
        TickTask::Validate,
        TickTask::Build(WithdrawalState::AwaitingFunds),
        TickTask::Build(WithdrawalState::Validated),
        TickTask::Sign,
        TickTask::BroadcastNew,
    ]
}

impl WithdrawalExecutor {
    /// An executor for a single operator that reads no status on Solana.
    pub fn new(config: WithdrawalConfig) -> (executor: Self)
        ensures
            executor.config == config,
            !executor.assigned,
            !executor.checks_chain,
    {
        WithdrawalExecutor { config, assigned: false, checks_chain: false }
    }

    /// Declares that the relayer is one of several operators.
    pub fn with_assignment(self) -> (executor: Self)
        ensures
            executor == (WithdrawalExecutor { assigned: true, ..self }),
    {
        WithdrawalExecutor {
            config: self.config,
            assigned: true,
            checks_chain: self.checks_chain,
        }
    }

    /// Declares that the status on Solana is read before every broadcast.
    pub fn with_onchain_status(self) -> (executor: Self)
        ensures
            executor == (WithdrawalExecutor { checks_chain: true, ..self }),
    {
        WithdrawalExecutor { config: self.config, assigned: self.assigned, checks_chain: true }
    }

    /// Whether this operator may build a payout now, given what the assignment
    /// says of it.
    pub fn may_build(&self, designated: bool) -> (may: bool)
        ensures
            may == (self.assigned ==> designated),
    {
        !self.assigned || designated
    }

    /// Whether a payout may be broadcast, given what Solana says of the
    /// withdrawal's completion. The last check before funds move: a chain that
    /// cannot be read is a reason to wait, never permission.
    pub open spec fn broadcast_is_safe(self, completed: Result<bool, String>) -> bool {
        self.checks_chain ==> (completed matches Ok(done) && !done)
    }

    /// Whether a payout may be broadcast, given what Solana says of the
    /// withdrawal's completion.
    pub fn safe_to_broadcast(&self, completed: &Result<bool, String>) -> (safe: bool)
        ensures
            safe == self.broadcast_is_safe(*completed),
    {
        if !self.checks_chain {
            return true;
        }
        match completed {
            Ok(done) => !*done,
            Err(_) => false,
        }
    }

    /// Bytes that one signed input of this vault contributes.
    pub fn vault_input_bytes(&self) -> (bytes: u64)
        requires
            self.config.vault.sized(),
        ensures
            bytes == self.config.vault.input_size(),
    {
        self.config.vault.input_bytes()
    }

    /// Which of `total` discovered withdrawals is recorded next, given what the
    /// database answered so far. Each is recorded once, in order, up to the
    /// first that cannot be: what comes after it is left alone.
    pub fn next_discovered(&self, total: usize, answers: &[Result<bool, String>]) -> (next: Option<
        usize,
    >)
        ensures
            next == if first_failure(answers@) is None && answers@.len() < total {
                Some(answers@.len() as usize)
            } else {
                None
            },
    {
        match find_failure(answers) {
            Some(_) => None,
            None => if answers.len() < total {
                Some(answers.len())
            } else {
                None
            },
        }
    }

    /// How many of the discovered withdrawals were new, given what the database
    /// answered for each of them, or why it could not answer.
    pub fn ingest_discovered(&self, answers: &[Result<bool, String>]) -> (result: Result<
        u32,
        ExecutorError,
    >)
        requires
            answers@.len() <= u32::MAX,
        ensures
            match first_failure(answers@) {
                Some(why) => result == Err::<u32, _>(ExecutorError::Db(why)),
                None => result matches Ok(n) && n == num_new(answers@),
            },
    {
        if let Some(why) = find_failure(answers) {
            return Err(ExecutorError::Db(why));
        }
        let mut n: u32 = 0;
        let mut i: usize = 0;
        assert(answers@.take(0) =~= Seq::empty());
        while i < answers.len()
            invariant
                i <= answers@.len() <= u32::MAX,
                n <= i,
                n == num_new(answers@.take(i as int)),
            decreases answers@.len() - i,
        {
            assert(answers@.take(i + 1).drop_last() =~= answers@.take(i as int));
            if let Ok(true) = &answers[i] {
                n = n + 1;
            }
            i = i + 1;
        }
        assert(answers@.take(answers@.len() as int) =~= answers@);
        Ok(n)
    }

    /// The transactions behind the outputs that the node reports. A row whose
    /// transaction is not among them has been spent.
    pub fn sync_vault(&self, observed: &[VaultUtxo]) -> (present: Vec<[u8; 32]>)
        ensures
            present@ == observed@.map_values(|u: VaultUtxo| u.txid),
    {
        let mut present: Vec<[u8; 32]> = Vec::new();
        let mut i: usize = 0;
        while i < observed.len()
            invariant
                i <= observed@.len(),
                present@ == observed@.take(i as int).map_values(|u: VaultUtxo| u.txid),
            decreases observed@.len() - i,
        {
            present.push(observed[i].txid);
            i = i + 1;
            assert(present@ =~= observed@.take(i as int).map_values(|u: VaultUtxo| u.txid));
        }
        assert(observed@.take(observed@.len() as int) =~= observed@);
        present
    }

    /// The tasks of one pass, in order.
    pub fn tick(&self) -> (tasks: Vec<TickTask>)
        ensures
            tasks@ == tick_tasks(),
    {
        let tasks: Vec<TickTask> =
            vec![
            TickTask::SyncVault,
            TickTask::ReclaimReservations,
            TickTask::Reconcile(WithdrawalState::Broadcast),
            TickTask::Reconcile(WithdrawalState::Confirming),
            TickTask::Rebroadcast(WithdrawalState::Orphaned),
            TickTask::Validate,
            TickTask::Build(WithdrawalState::AwaitingFunds),
            TickTask::Build(WithdrawalState::Validated),
            TickTask::Sign,
            TickTask::BroadcastNew,
        ];
        assert(tasks@ =~= tick_tasks());
        tasks
    }

    /// Whether a signed payout still has to be sent, given the confirmations
    /// of its row, where it has one.
    pub fn awaits_broadcast(&self, confirmations: Option<i64>) -> (awaits: bool)
        ensures
            awaits == (confirmations == Some(0i64)),
    {
        match confirmations {
            Some(n) => n == 0,
            None => false,
        }
    }

    /// The time before which a reservation without a payout is stale.
    pub fn reservation_cutoff(&self, now: i64) -> (cutoff: i64)
        requires
            i64::MIN <= now - self.config.reservation_timeout_secs <= i64::MAX,
        ensures
            cutoff == now - self.config.reservation_timeout_secs,
    {
        now - self.config.reservation_timeout_secs
    }

    /// The states in which a withdrawal can hold a reservation without a
    /// payout.
    pub fn reclaimed_states(&self) -> (states: Vec<WithdrawalState>)
        ensures
            states@ == seq![
                WithdrawalState::Validated,
                WithdrawalState::AwaitingFunds,
                WithdrawalState::Building,
            ],
    {
        let states: Vec<WithdrawalState> =
            vec![
            WithdrawalState::Validated,
            WithdrawalState::AwaitingFunds,
            WithdrawalState::Building,
        ];
        assert(states@ =~= seq![
            WithdrawalState::Validated,
            WithdrawalState::AwaitingFunds,
            WithdrawalState::Building,
        ]);
        states
    }

    /// Whether a reservation is released. Inputs that a payout row holds are
    /// committed to one transaction for ever and are never touched.
    pub fn reclaim_abandoned_reservations(
        &self,
        has_payout: bool,
        num_reserved: usize,
        stale: bool,
    ) -> (release: bool)
        ensures
            release == (!has_payout && num_reserved > 0 && stale),
    {
        !has_payout && num_reserved > 0 && stale
    }

    /// Judges a stored withdrawal: its address must still decode, and to the
    /// stored hash, and its amount must be payable.
    pub fn validate(&self, w: &WithdrawalRow, report: &mut WithdrawalTickReport) -> (t: Transition)
        requires
            old(report).has_room(),
        ensures
            t == judged(*w, self.config.dust_threshold_atomic, payable(w.glc_address@)),
            *final(report) == judgement_counted(*old(report), t),
    {
        self.judge(w, decode_p2pkh_hash160(w.glc_address.as_str()), report)
    }

    /// Judges a stored withdrawal, given what its address decodes to.
    pub fn judge(
        &self,
        w: &WithdrawalRow,
        decoded: Result<[u8; 20], AddressError>,
        report: &mut WithdrawalTickReport,
    ) -> (t: Transition)
        requires
            old(report).has_room(),
        ensures
            t == judged(
                *w,
                self.config.dust_threshold_atomic,
                match decoded {
                    Ok(hash) => Ok(hash@),
                    Err(e) => Err(e),
                },
            ),
            *final(report) == judgement_counted(*old(report), t),
    {
        match decoded {
            Err(e) => {
                report.failed = report.failed + 1;
                Transition {
                    state: WithdrawalState::Failed,
                    note: Some(Note::UndecodableAddress(e)),
                }
            },
            Ok(hash) => {
                if !same_bytes(&hash, &w.glc_address_hash160) {
                    report.halted = report.halted + 1;
                    return Transition {
                        state: WithdrawalState::IntegrityHalted,
                        note: Some(Note::AddressMismatch),
                    };
                }
                if w.amount_atomic < self.config.dust_threshold_atomic {
                    report.failed = report.failed + 1;
                    return Transition {
                        state: WithdrawalState::Failed,
                        note: Some(Note::BelowDust),
                    };
                }
                report.validated = report.validated + 1;
                Transition { state: WithdrawalState::Validated, note: None }
            },
        }
    }
}

/// The first reason for which a withdrawal could not be recorded.
pub open spec fn first_failure(answers: Seq<Result<bool, String>>) -> Option<String>
    decreases answers.len(),
{
    if answers.len() == 0 {
        None
    } else {
        match answers[0] {
            Err(why) => Some(why),
            Ok(_) => first_failure(answers.drop_first()),
        }
    }
}

/// How many withdrawals were recorded that were not known before.
pub open spec fn num_new(answers: Seq<Result<bool, String>>) -> nat
    decreases answers.len(),
{
    if answers.len() == 0 {
        0
    } else {
        num_new(answers.drop_last()) + if answers.last() == Ok::<bool, String>(true) {
            1nat
        } else {
            0nat
        }
    }
}

fn find_failure(answers: &[Result<bool, String>]) -> (why: Option<String>)
    ensures
        why == first_failure(answers@),
{
    let mut i: usize = 0;
    assert(answers@.skip(0) =~= answers@);
    while i < answers.len()
        invariant
            i <= answers@.len(),
            first_failure(answers@) == first_failure(answers@.skip(i as int)),
        decreases answers@.len() - i,
    {
        assert(answers@.skip(i as int).drop_first() =~= answers@.skip(i + 1));
        if let Err(why) = &answers[i] {
            return Some(why.clone());
        }
        i = i + 1;
    }
    None
}

/// The outpoints of some outputs, as a node is asked to spend them.
pub open spec fn outpoints_of(utxos: Seq<VaultUtxo>) -> Seq<(String, i64)> {
    Seq::new(utxos.len(), |i: int| (utxos[i].txid_hex, utxos[i].vout))
}

/// The outpoints of some outputs, as a node is asked to spend them.
pub fn outpoints(utxos: &[VaultUtxo]) -> (points: Vec<(String, i64)>)
    ensures
        points@ == outpoints_of(utxos@),
{
    let mut points: Vec<(String, i64)> = Vec::new();
    let mut i: usize = 0;
    while i < utxos.len()
        invariant
            i <= utxos@.len(),
            points@ == outpoints_of(utxos@).take(i as int),
        decreases utxos@.len() - i,
    {
        points.push((utxos[i].txid_hex.clone(), utxos[i].vout));
        i = i + 1;
        assert(points@ =~= outpoints_of(utxos@).take(i as int));
    }
    assert(points@ =~= outpoints_of(utxos@));
    points
}

/// The scripts of a payout's outputs: the destination, then the change.
pub fn expected_output_scripts(dest: &[u8; 20], change: Option<&[u8; 20]>) -> (scripts: Vec<String>)
    ensures
        scripts@.len() == if change is Some {
            2nat
        } else {
            1nat
        },
        scripts@[0]@ == hex_text(p2pkh_script(dest@)),
        change matches Some(c) ==> scripts@[1]@ == hex_text(p2pkh_script(c@)),
{
    let mut scripts: Vec<String> = Vec::new();
    scripts.push(p2pkh_script_hex(dest));
    match change {
        Some(c) => {
            scripts.push(p2pkh_script_hex(c));
        },
        None => {},
    }
    scripts
}

/// A decoded transaction from its parts.
pub fn decoded_tx(
    txid_hex: String,
    inputs: Vec<(String, i64)>,
    outputs: Vec<(u64, String)>,
) -> (tx: DecodedTx)
    ensures
        tx.txid_hex == txid_hex,
        tx.inputs@ == inputs@.map_values(
            |p: (String, i64)| DecodedInput { txid_hex: p.0, vout: p.1 },
        ),
        tx.outputs@ == outputs@.map_values(
            |p: (u64, String)| DecodedOutput { value_atomic: p.0, script_pubkey_hex: p.1 },
        ),
{
    let mut ins: Vec<DecodedInput> = Vec::new();
    let mut i: usize = 0;
    while i < inputs.len()
        invariant
            i <= inputs@.len(),
            ins@.len() == i,
            forall|j: int|
                0 <= j < i ==> #[trigger] ins@[j] == (DecodedInput {
                    txid_hex: inputs@[j].0,
                    vout: inputs@[j].1,
                }),
        decreases inputs@.len() - i,
    {
        ins.push(DecodedInput { txid_hex: inputs[i].0.clone(), vout: inputs[i].1 });
        i = i + 1;
    }
    let mut outs: Vec<DecodedOutput> = Vec::new();
    let mut i: usize = 0;
    while i < outputs.len()
        invariant
            i <= outputs@.len(),
            outs@.len() == i,
            forall|j: int|
                0 <= j < i ==> #[trigger] outs@[j] == (DecodedOutput {
                    value_atomic: outputs@[j].0,
                    script_pubkey_hex: outputs@[j].1,
                }),
        decreases outputs@.len() - i,
    {
        outs.push(
            DecodedOutput { value_atomic: outputs[i].0, script_pubkey_hex: outputs[i].1.clone() },
        );
        i = i + 1;
    }
    DecodedTx { txid_hex, inputs: ins, outputs: outs }
}

/// Everything that was already broadcast is looked up before anything new is
/// validated, built, signed or sent.
pub proof fn reconciliation_comes_before_action(i: int, j: int)
    requires
        0 <= i < tick_tasks().len(),
        0 <= j < tick_tasks().len(),
        tick_tasks()[i].looks_back(),
        !tick_tasks()[j].looks_back(),
    ensures
        i < j,
{
}

/// A withdrawal whose address was accepted for a hash, and whose amount is at
/// least dust, is never failed or halted: it becomes payable.
pub proof fn an_accepted_address_validates(w: WithdrawalRow, dust: u64)
    requires
        payable(w.glc_address@) == Ok::<Seq<u8>, AddressError>(w.glc_address_hash160@),
        w.amount_atomic >= dust,
    ensures
        judged(w, dust, payable(w.glc_address@)) == (Transition {
            state: WithdrawalState::Validated,
            note: None,
        }),
{
}

impl WithdrawalTickReport {
    /// How many times something was counted.
    pub open spec fn total(self) -> int {
        self.observed + self.validated + self.awaiting_funds + self.built + self.signed
            + self.broadcast + self.confirming + self.completed + self.halted + self.failed
            + self.orphaned
    }
}

/// A failure of the node is told apart by whether the node was reached, and the
/// failure itself is kept.
pub proof fn only_an_unreached_node_is_unavailable(e: RpcError)
    ensures
        classified(e) is NodeUnavailable <==> e is Transport,
        classified(e) is Rpc <==> e is Method || e is Malformed,
        classified(e) == ExecutorError::NodeUnavailable(e) || classified(e) == ExecutorError::Rpc(
            e,
        ),
{
}

/// A withdrawal is paid only where its address still decodes to the stored hash
/// and its amount is no dust, and then always. One whose address and hash
/// disagree is halted for a person to look at; one that can never be paid is
/// failed. Each is counted once, as what became of it.
pub proof fn a_withdrawal_is_judged_by_its_address_and_amount(
    w: WithdrawalRow,
    dust: u64,
    decoded: Result<Seq<u8>, AddressError>,
    report: WithdrawalTickReport,
)
    requires
        report.has_room(),
    ensures
        ({
            let t = judged(w, dust, decoded);
            let after = judgement_counted(report, t);
            let agrees = decoded matches Ok(hash) && hash == w.glc_address_hash160@;
            &&& t.state == WithdrawalState::Validated <==> agrees && w.amount_atomic >= dust
            &&& t.state == WithdrawalState::IntegrityHalted <==> decoded is Ok && !agrees
            &&& t.state == WithdrawalState::Failed <==> decoded is Err || (agrees
                && w.amount_atomic < dust)
            &&& t.state == WithdrawalState::Validated <==> t.note is None
            &&& (decoded matches Err(e) ==> t.note == Some(Note::UndecodableAddress(e)))
            &&& decoded is Ok && !agrees ==> t.note == Some(Note::AddressMismatch)
            &&& agrees && w.amount_atomic < dust ==> t.note == Some(Note::BelowDust)
            &&& after.total() == report.total() + 1
            &&& t.state == WithdrawalState::Validated <==> after.validated == report.validated + 1
            &&& t.state == WithdrawalState::Failed <==> after.failed == report.failed + 1
            &&& t.state == WithdrawalState::IntegrityHalted <==> after.halted == report.halted + 1
        }),
{
}

/// Every withdrawal that was recorded as new counts, and no other; and what
/// stopped the recording is the first failure, with everything before it
/// recorded.
pub proof fn every_new_withdrawal_counts_once(answers: Seq<Result<bool, String>>, more: Seq<
    Result<bool, String>,
>)
    ensures
        num_new(Seq::empty()) == 0,
        num_new(answers.push(Ok(true))) == num_new(answers) + 1,
        num_new(answers.push(Ok(false))) == num_new(answers),
        forall|why: String| num_new(#[trigger] answers.push(Err(why))) == num_new(answers),
        first_failure(answers) is None <==> forall|i: int|
            0 <= i < answers.len() ==> (#[trigger] answers[i]) is Ok,
        first_failure(answers) is Some ==> first_failure(answers + more) == first_failure(answers),
        first_failure(answers) is None ==> first_failure(answers + more) == first_failure(more),
        forall|why: String|
            first_failure(answers) is None ==> first_failure(#[trigger] answers.push(Err(why)))
                == Some(why),
    decreases answers.len(),
{
    assert(answers.push(Ok(true)).drop_last() =~= answers);
    assert(answers.push(Ok(false)).drop_last() =~= answers);
    assert forall|why: String| num_new(#[trigger] answers.push(Err(why))) == num_new(answers) by {
        assert(answers.push(Err(why)).drop_last() =~= answers);
    }
    lemma_first_failure(answers, more);
    assert forall|why: String| first_failure(answers) is None implies first_failure(
        #[trigger] answers.push(Err(why)),
    ) == Some(why) by {
        let one = seq![Err::<bool, String>(why)];
        lemma_first_failure(answers, one);
        assert(answers + one =~= answers.push(Err(why)));
        assert(one[0] == Err::<bool, String>(why));
    }
}

proof fn lemma_first_failure(answers: Seq<Result<bool, String>>, more: Seq<Result<bool, String>>)
    ensures
        first_failure(answers) is None <==> forall|i: int|
            0 <= i < answers.len() ==> (#[trigger] answers[i]) is Ok,
        first_failure(answers) is Some ==> first_failure(answers + more) == first_failure(answers),
        first_failure(answers) is None ==> first_failure(answers + more) == first_failure(more),
    decreases answers.len(),
{
    if answers.len() == 0 {
        assert(answers + more =~= more);
    } else {
        let rest = answers.drop_first();
        assert((answers + more)[0] == answers[0]);
        assert((answers + more).drop_first() =~= rest + more);
        lemma_first_failure(rest, more);
        if first_failure(answers) is None {
            assert forall|i: int| 0 <= i < answers.len() implies (#[trigger] answers[i]) is Ok by {
                if i > 0 {
                    assert(answers[i] == rest[i - 1]);
                }
            }
        } else if forall|i: int| 0 <= i < answers.len() ==> (#[trigger] answers[i]) is Ok {
            assert(answers[0] is Ok);
            assert forall|i: int| 0 <= i < rest.len() implies (#[trigger] rest[i]) is Ok by {
                assert(rest[i] == answers[i + 1]);
            }
        }
    }
}

/// With the check attached a payout goes out only where Solana was read and says
/// that the withdrawal is not completed; without it nothing is asked.
pub proof fn a_chain_that_cannot_be_read_is_no_permission(
    executor: WithdrawalExecutor,
    completed: Result<bool, String>,
)
    ensures
        executor.broadcast_is_safe(completed) <==> !executor.checks_chain || completed == Ok::<
            bool,
            String,
        >(false),
{
}

/// One pass looks at the vault first, then at every payout that was sent, and
/// leaves no kind of withdrawal out: what is orphaned is sent again, what waits
/// for funds is built before what is new, and what is built is signed before
/// anything is sent.
pub proof fn a_pass_leaves_nothing_out(state: WithdrawalState)
    ensures
        tick_tasks().first() == TickTask::SyncVault,
        tick_tasks().last() == TickTask::BroadcastNew,
        tick_tasks().contains(TickTask::ReclaimReservations),
        tick_tasks().contains(TickTask::Validate),
        tick_tasks().contains(TickTask::Sign),
        tick_tasks().contains(TickTask::Reconcile(state)) <==> state == WithdrawalState::Broadcast
            || state == WithdrawalState::Confirming,
        tick_tasks().contains(TickTask::Rebroadcast(state)) <==> state
            == WithdrawalState::Orphaned,
        tick_tasks().contains(TickTask::Build(state)) <==> state == WithdrawalState::AwaitingFunds
            || state == WithdrawalState::Validated,
        forall|i: int, j: int|
            0 <= i < tick_tasks().len() && 0 <= j < tick_tasks().len() && tick_tasks()[i]
                == TickTask::Build(WithdrawalState::AwaitingFunds) && tick_tasks()[j]
                == TickTask::Build(WithdrawalState::Validated) ==> i < j,
        forall|i: int, j: int|
            0 <= i < j < tick_tasks().len() ==> #[trigger] tick_tasks()[i]
                != #[trigger] tick_tasks()[j],
{
    let tasks = tick_tasks();
    assert(tasks[1] == TickTask::ReclaimReservations);
    assert(tasks[2] == TickTask::Reconcile(WithdrawalState::Broadcast));
    assert(tasks[3] == TickTask::Reconcile(WithdrawalState::Confirming));
    assert(tasks[4] == TickTask::Rebroadcast(WithdrawalState::Orphaned));
    assert(tasks[5] == TickTask::Validate);
    assert(tasks[6] == TickTask::Build(WithdrawalState::AwaitingFunds));
    assert(tasks[7] == TickTask::Build(WithdrawalState::Validated));
    assert(tasks[8] == TickTask::Sign);
}

/// A node is asked to spend exactly the outputs it is given, each at its place.
pub proof fn the_outpoints_are_those_of_the_outputs(utxos: Seq<VaultUtxo>, i: int)
    requires
        0 <= i < utxos.len(),
    ensures
        outpoints_of(utxos).len() == utxos.len(),
        outpoints_of(utxos)[i].0 == utxos[i].txid_hex,
        outpoints_of(utxos)[i].1 == utxos[i].vout,
{
}

/// A relayer that is not told whose turn it is builds every payout; one that is
/// builds exactly those that it is designated for.
pub proof fn only_the_designated_relayer_builds(
    executor: WithdrawalExecutor,
    designated: bool,
    may: bool,
)
    requires
        call_ensures(WithdrawalExecutor::may_build, (&executor, designated), may),
    ensures
        !executor.assigned ==> may,
        executor.assigned ==> (may <==> designated),
{
}

/// A reservation is given up exactly where it holds something, no payout came of
/// it, and it was made before the cutoff, which lies the timeout in the past.
pub proof fn only_a_stale_reservation_is_given_up(
    executor: WithdrawalExecutor,
    has_payout: bool,
    num_reserved: usize,
    stale: bool,
    release: bool,
    now: i64,
    cutoff: i64,
)
    requires
        i64::MIN <= now - executor.config.reservation_timeout_secs <= i64::MAX,
        call_ensures(
            WithdrawalExecutor::reclaim_abandoned_reservations,
            (&executor, has_payout, num_reserved, stale),
            release,
        ),
        call_ensures(WithdrawalExecutor::reservation_cutoff, (&executor, now), cutoff),
    ensures
        release <==> stale && num_reserved != 0 && !has_payout,
        cutoff + executor.config.reservation_timeout_secs == now,
{
}

/// Reservations are looked for in every state before the payout is built and in
/// no other.
pub proof fn reservations_are_reclaimed_before_the_payout_is_built(
    executor: WithdrawalExecutor,
    states: Vec<WithdrawalState>,
    state: WithdrawalState,
)
    requires
        call_ensures(WithdrawalExecutor::reclaimed_states, (&executor,), states),
    ensures
        states@.contains(state) <==> state is Validated || state is AwaitingFunds
            || state is Building,
{
    assert(states@[0] is Validated && states@[1] is AwaitingFunds && states@[2] is Building);
}

/// A payout that the node knows without a confirmation waits to be confirmed; one
/// that it does not know, or that is confirmed, does not.
pub proof fn an_unconfirmed_payout_awaits_its_broadcast(
    executor: WithdrawalExecutor,
    confirmations: Option<i64>,
    awaits: bool,
)
    requires
        call_ensures(WithdrawalExecutor::awaits_broadcast, (&executor, confirmations), awaits),
    ensures
        awaits <==> (confirmations matches Some(n) && n == 0),
{
}

/// The next request is recorded exactly where none before it failed and one is
/// left, and the requests are taken in their order.
pub proof fn requests_are_recorded_one_after_another(
    executor: WithdrawalExecutor,
    total: usize,
    answers: &[Result<bool, String>],
    next: Option<usize>,
)
    requires
        call_ensures(WithdrawalExecutor::next_discovered, (&executor, total, answers), next),
        answers@.len() <= usize::MAX,
    ensures
        next is Some <==> answers@.len() < total && forall|i: int|
            0 <= i < answers@.len() ==> (#[trigger] answers@[i]) is Ok,
        next matches Some(n) ==> n == answers@.len(),
{
    lemma_no_failure(answers@);
}

proof fn lemma_no_failure(answers: Seq<Result<bool, String>>)
    ensures
        first_failure(answers) is None <==> forall|i: int|
            0 <= i < answers.len() ==> (#[trigger] answers[i]) is Ok,
    decreases answers.len(),
{
    if answers.len() > 0 {
        let rest = answers.drop_first();
        lemma_no_failure(rest);
        if forall|i: int| 0 <= i < answers.len() ==> (#[trigger] answers[i]) is Ok {
            assert(answers[0] is Ok);
            assert forall|i: int| 0 <= i < rest.len() implies (#[trigger] rest[i]) is Ok by {
                assert(rest[i] == answers[i + 1]);
            }
        }
        if first_failure(answers) is None {
            assert forall|i: int| 0 <= i < answers.len() implies (#[trigger] answers[i]) is Ok by {
                if i > 0 {
                    assert(answers[i] == rest[i - 1]);
                }
            }
        }
    }
}

/// The vault holds every observed output under its own transaction, in the order
/// in which they were observed.
pub proof fn every_observed_output_is_kept(
    executor: WithdrawalExecutor,
    observed: &[VaultUtxo],
    present: Vec<[u8; 32]>,
    i: int,
)
    requires
        call_ensures(WithdrawalExecutor::sync_vault, (&executor, observed), present),
    ensures
        present@.len() == observed@.len(),
        0 <= i < observed@.len() ==> present@[i] == observed@[i].txid,
{
}

/// A payout has an output for its destination, and one for its change exactly
/// where there is any.
pub proof fn a_payout_pays_its_destination_first(
    dest: &[u8; 20],
    change: Option<&[u8; 20]>,
    scripts: Vec<String>,
)
    requires
        call_ensures(expected_output_scripts, (dest, change), scripts),
    ensures
        change is None ==> scripts@.len() == 1,
        change is Some ==> scripts@.len() == 2,
        scripts@[0]@ == hex_text(p2pkh_script(dest@)),
        change matches Some(c) ==> scripts@[1]@ == hex_text(p2pkh_script(c@)),
{
}

/// A decoded transaction has every input and every output that the node reported,
/// as it reported them.
pub proof fn a_decoded_transaction_is_what_the_node_reported(
    txid_hex: String,
    inputs: Vec<(String, i64)>,
    outputs: Vec<(u64, String)>,
    tx: DecodedTx,
    i: int,
)
    requires
        call_ensures(decoded_tx, (txid_hex, inputs, outputs), tx),
    ensures
        tx.txid_hex == txid_hex,
        tx.inputs@.len() == inputs@.len(),
        tx.outputs@.len() == outputs@.len(),
        0 <= i < inputs@.len() ==> tx.inputs@[i].txid_hex == inputs@[i].0 && tx.inputs@[i].vout
            == inputs@[i].1,
        0 <= i < outputs@.len() ==> tx.outputs@[i].value_atomic == outputs@[i].0
            && tx.outputs@[i].script_pubkey_hex == outputs@[i].1,
{
}

} // verus!
