//! Broadcasting a signed payout, and resolving it against the chain.
//!
//! Only ever the identical bytes are sent: a payout is never rebuilt.

use crate::glc::hex::{decode_exact, hex_bytes, is_hex};
use crate::glc::rpc::{BroadcastOutcome, RpcError};
use crate::glc::withdrawal_db::WithdrawalState;
use crate::withdrawal::executor::{
    classified, classify, ExecutorError, Note, Transition, TxStatus, WithdrawalExecutor,
    WithdrawalTickReport,
};
use vstd::prelude::*;

verus! {

/// What broadcasting a payout does next.
#[derive(Debug, PartialEq, Eq)]
pub enum BroadcastStep {
    /// Load the signed transaction.
    Load,
    /// Ask whether the withdrawal is already completed on Solana.
    AskSolana { signed_tx_hex: String },
    /// Hand the transaction to the node.
    Send { signed_tx_hex: String },
    /// Record that the node has the transaction, and read the state back.
    Record,
    /// The node has the transaction. Record the return of an orphaned payout,
    /// then reconcile at once.
    Accepted(Option<Transition>),
    /// The inputs are gone: reconcile before anything else.
    InputsGone,
    Stop,
    Fail(ExecutorError),
}

/// What came back.
#[derive(Debug, PartialEq, Eq)]
pub enum BroadcastEvent {
    /// The signed transaction of the payout row, where there are both.
    Loaded(Option<String>),
    /// Whether the withdrawal is completed on Solana.
    Completed(Result<bool, String>),
    Sent(Result<BroadcastOutcome, RpcError>),
    Recorded(Option<WithdrawalState>),
}

impl WithdrawalExecutor {
    /// What follows an event while broadcasting.
    pub open spec fn next_broadcast(
        self,
        step: BroadcastStep,
        event: BroadcastEvent,
    ) -> BroadcastStep {
        match (step, event) {
            (BroadcastStep::Load, BroadcastEvent::Loaded(loaded)) => match loaded {
                Some(signed_tx_hex) => if self.checks_chain {
                    BroadcastStep::AskSolana { signed_tx_hex }
                } else {
                    BroadcastStep::Send { signed_tx_hex }
                },
                None => BroadcastStep::Stop,
            },
            (
                BroadcastStep::AskSolana { signed_tx_hex },
                BroadcastEvent::Completed(completed),
            ) => if self.broadcast_is_safe(completed) {
                BroadcastStep::Send { signed_tx_hex }
            } else {
                BroadcastStep::Stop
            },
            (BroadcastStep::Send { .. }, BroadcastEvent::Sent(sent)) => match sent {
                Ok(BroadcastOutcome::MissingInputs) => BroadcastStep::InputsGone,
                Ok(_) => BroadcastStep::Record,
                Err(e) => BroadcastStep::Fail(classified(e)),
            },
            (BroadcastStep::Record, BroadcastEvent::Recorded(state)) => BroadcastStep::Accepted(
                if state == Some(WithdrawalState::Orphaned) {
                    Some(
                        Transition {
                            state: WithdrawalState::Broadcast,
                            note: Some(Note::Rebroadcast),
                        },
                    )
                } else {
                    None
                },
            ),
            (other, _) => other,
        }
    }

    /// Decides what follows an event. Broadcasting starts at
    /// [`BroadcastStep::Load`]; an event that was not asked for changes
    /// nothing.
    pub fn rebroadcast(&self, step: BroadcastStep, event: BroadcastEvent) -> (next: BroadcastStep)
        ensures
            next == self.next_broadcast(step, event),
    {
        match (step, event) {
            (BroadcastStep::Load, BroadcastEvent::Loaded(loaded)) => match loaded {
                Some(signed_tx_hex) => {
                    if self.checks_chain {
                        BroadcastStep::AskSolana { signed_tx_hex }
                    } else {
                        BroadcastStep::Send { signed_tx_hex }
                    }
                },
                None => BroadcastStep::Stop,
            },
            (
                BroadcastStep::AskSolana { signed_tx_hex },
                BroadcastEvent::Completed(completed),
            ) => {
                if self.safe_to_broadcast(&completed) {
                    BroadcastStep::Send { signed_tx_hex }
                } else {
                    BroadcastStep::Stop
                }
            },
            (BroadcastStep::Send { .. }, BroadcastEvent::Sent(sent)) => match sent {
                Ok(BroadcastOutcome::MissingInputs) => BroadcastStep::InputsGone,
                Ok(_) => BroadcastStep::Record,
                Err(e) => BroadcastStep::Fail(classify(e)),
            },
            (BroadcastStep::Record, BroadcastEvent::Recorded(state)) => {
                let orphaned: bool = match state {
                    Some(s) => s == WithdrawalState::Orphaned,
                    None => false,
                };
                if orphaned {
                    BroadcastStep::Accepted(
                        Some(
                            Transition {
                                state: WithdrawalState::Broadcast,
                                note: Some(Note::Rebroadcast),
                            },
                        ),
                    )
                } else {
                    BroadcastStep::Accepted(None)
                }
            },
            (other, _) => other,
        }
    }
}

impl BroadcastStep {
    /// Whether the payout is resolved against the chain right after
    /// broadcasting came to this step: one that the node has may be mined
    /// already, and one whose inputs are gone is looked at before anything else
    /// is done to it.
    pub open spec fn is_resolved_next(self) -> bool {
        self is Accepted || self is InputsGone
    }

    /// Whether the payout is resolved against the chain next.
    pub fn reconciles(&self) -> (resolved: bool)
        ensures
            resolved == self.is_resolved_next(),
    {
        match self {
            BroadcastStep::Accepted(_) => true,
            BroadcastStep::InputsGone => true,
            _ => false,
        }
    }

    /// The report after broadcasting came to this step.
    pub open spec fn counted(self, report: WithdrawalTickReport) -> WithdrawalTickReport {
        if self is Accepted {
            WithdrawalTickReport { broadcast: (report.broadcast + 1) as u32, ..report }
        } else {
            report
        }
    }

    /// Counts a broadcast that came to this step.
    pub fn count(&self, report: &mut WithdrawalTickReport)
        requires
            old(report).has_room(),
        ensures
            *final(report) == self.counted(*old(report)),
    {
        match self {
            BroadcastStep::Accepted(_) => {
                report.broadcast = report.broadcast + 1;
            },
            _ => {},
        }
    }
}

/// What resolving a payout does next.
#[derive(Debug, PartialEq, Eq)]
pub enum ReconcileStep {
    /// Load the transaction id.
    Load,
    /// Ask the node what it knows of the transaction.
    AskNode { txid_hex: String },
    /// Ask whether the transaction's block is on the main chain.
    AskChain(TxStatus),
    /// Record the confirmations, and read the state back.
    Record(TxStatus),
    /// Record that the payout is confirming, where that is news; then complete
    /// it, where it is deep enough.
    Settle { confirming: Option<Transition>, complete: bool },
    /// The transaction is not on the main chain: send it again.
    Orphan(Transition),
    Stop,
    Fail(ExecutorError),
}

/// What came back.
#[derive(Debug, PartialEq, Eq)]
pub enum ReconcileEvent {
    /// The transaction id of the payout row, where there are both.
    Loaded(Option<String>),
    Status(Result<Option<TxStatus>, RpcError>),
    OnMainChain(Result<bool, RpcError>),
    Recorded(WithdrawalState),
}

/// The move of a payout that is not on the main chain.
pub open spec fn orphaned(note: Note) -> Transition {
    Transition { state: WithdrawalState::Orphaned, note: Some(note) }
}

/// What follows an event while resolving a payout that is complete at `depth`
/// confirmations.
pub open spec fn next_reconcile(
    depth: i64,
    step: ReconcileStep,
    event: ReconcileEvent,
) -> ReconcileStep {
    match (step, event) {
        (ReconcileStep::Load, ReconcileEvent::Loaded(loaded)) => match loaded {
            Some(txid_hex) => ReconcileStep::AskNode { txid_hex },
            None => ReconcileStep::Stop,
        },
        (ReconcileStep::AskNode { .. }, ReconcileEvent::Status(status)) => match status {
            Err(e) => ReconcileStep::Fail(classified(e)),
            Ok(None) => ReconcileStep::Orphan(orphaned(Note::UnknownToNode)),
            Ok(Some(status)) => if status.block_hash_hex is Some {
                ReconcileStep::AskChain(status)
            } else {
                ReconcileStep::Record(status)
            },
        },
        (ReconcileStep::AskChain(status), ReconcileEvent::OnMainChain(on_chain)) => match on_chain {
            Err(e) => ReconcileStep::Fail(classified(e)),
            Ok(true) => ReconcileStep::Record(status),
            Ok(false) => ReconcileStep::Orphan(orphaned(Note::ReorgedAway)),
        },
        (ReconcileStep::Record(status), ReconcileEvent::Recorded(state)) => ReconcileStep::Settle {
            confirming: if state == WithdrawalState::Broadcast {
                Some(Transition { state: WithdrawalState::Confirming, note: None })
            } else {
                None
            },
            complete: status.confirmations >= depth,
        },
        (other, _) => other,
    }
}

impl WithdrawalExecutor {
    /// Decides what follows an event. Resolving starts at
    /// [`ReconcileStep::Load`]; an event that was not asked for changes
    /// nothing.
    pub fn reconcile_broadcast(
        &self,
        step: ReconcileStep,
        event: ReconcileEvent,
    ) -> (next: ReconcileStep)
        ensures
            next == next_reconcile(self.config.confirmation_depth, step, event),
    {
        match (step, event) {
            (ReconcileStep::Load, ReconcileEvent::Loaded(loaded)) => match loaded {
                Some(txid_hex) => ReconcileStep::AskNode { txid_hex },
                None => ReconcileStep::Stop,
            },
            (ReconcileStep::AskNode { .. }, ReconcileEvent::Status(status)) => match status {
                Err(e) => ReconcileStep::Fail(classify(e)),
                Ok(None) => ReconcileStep::Orphan(
                    Transition {
                        state: WithdrawalState::Orphaned,
                        note: Some(Note::UnknownToNode),
                    },
                ),
                Ok(Some(status)) => {
                    if status.block_hash_hex.is_some() {
                        ReconcileStep::AskChain(status)
                    } else {
                        ReconcileStep::Record(status)
                    }
                },
            },
            (
                ReconcileStep::AskChain(status),
                ReconcileEvent::OnMainChain(on_chain),
            ) => match on_chain {
                Err(e) => ReconcileStep::Fail(classify(e)),
                Ok(true) => ReconcileStep::Record(status),
                Ok(false) => ReconcileStep::Orphan(
                    Transition {
                        state: WithdrawalState::Orphaned,
                        note: Some(Note::ReorgedAway),
                    },
                ),
            },
            (ReconcileStep::Record(status), ReconcileEvent::Recorded(state)) => {
                let confirming: Option<Transition> = if state == WithdrawalState::Broadcast {
                    Some(Transition { state: WithdrawalState::Confirming, note: None })
                } else {
                    None
                };
                ReconcileStep::Settle {
                    confirming,
                    complete: status.confirmations >= self.config.confirmation_depth,
                }
            },
            (other, _) => other,
        }
    }
}

impl ReconcileStep {
    /// The report after resolving came to this step.
    pub open spec fn counted(self, report: WithdrawalTickReport) -> WithdrawalTickReport {
        match self {
            ReconcileStep::Orphan(_) => WithdrawalTickReport {
                orphaned: (report.orphaned + 1) as u32,
                ..report
            },
            ReconcileStep::Settle { complete, .. } => if complete {
                WithdrawalTickReport { completed: (report.completed + 1) as u32, ..report }
            } else {
                WithdrawalTickReport { confirming: (report.confirming + 1) as u32, ..report }
            },
            _ => report,
        }
    }

    /// Counts a payout whose resolving came to this step.
    pub fn count(&self, report: &mut WithdrawalTickReport)
        requires
            old(report).has_room(),
        ensures
            *final(report) == self.counted(*old(report)),
    {
        match self {
            ReconcileStep::Orphan(_) => {
                report.orphaned = report.orphaned + 1;
            },
            ReconcileStep::Settle { complete, .. } => {
                if *complete {
                    report.completed = report.completed + 1;
                } else {
                    report.confirming = report.confirming + 1;
                }
            },
            _ => {},
        }
    }
}

impl TxStatus {
    /// The hash of the transaction's block as it is stored: nothing where the
    /// node gave none, or gave one that is no hash.
    pub fn block_hash(&self) -> (hash: Option<[u8; 32]>)
        ensures
            match (self.block_hash_hex, hash) {
                (Some(text), Some(h)) => is_hex(text@) && text@.len() == 64 && h@ == hex_bytes(text@),
                (Some(text), None) => !(is_hex(text@) && text@.len() == 64),
                (None, h) => h is None,
            },
    {
        match &self.block_hash_hex {
            Some(text) => match decode_exact::<32>(text.as_str()) {
                Ok(hash) => Some(hash),
                Err(_) => None,
            },
            None => None,
        }
    }
}

/// The step after some events of a broadcast.
pub open spec fn broadcast_after(
    executor: WithdrawalExecutor,
    events: Seq<BroadcastEvent>,
) -> BroadcastStep
    decreases events.len(),
{
    if events.len() == 0 {
        BroadcastStep::Load
    } else {
        executor.next_broadcast(broadcast_after(executor, events.drop_last()), events.last())
    }
}

/// Whether Solana said that the withdrawal is not completed.
pub open spec fn says_unpaid(event: BroadcastEvent) -> bool {
    event matches BroadcastEvent::Completed(Ok(done)) && !done
}

/// Whether these bytes were loaded from the payout row.
pub open spec fn loads(event: BroadcastEvent, signed_tx_hex: String) -> bool {
    event == BroadcastEvent::Loaded(Some(signed_tx_hex))
}

/// Only the stored bytes are ever sent, never a rebuilt transaction; and with
/// the check attached, nothing is sent unless Solana was read and said that
/// the withdrawal is not completed.
pub proof fn nothing_is_sent_on_a_guess(executor: WithdrawalExecutor, events: Seq<BroadcastEvent>)
    ensures
        match broadcast_after(executor, events) {
            BroadcastStep::AskSolana { signed_tx_hex } => exists|i: int|
                0 <= i < events.len() && loads(#[trigger] events[i], signed_tx_hex),
            BroadcastStep::Send { signed_tx_hex } => {
                &&& exists|i: int|
                    0 <= i < events.len() && loads(#[trigger] events[i], signed_tx_hex)
                &&& executor.checks_chain ==> exists|i: int|
                    0 <= i < events.len() && says_unpaid(#[trigger] events[i])
            },
            _ => true,
        },
    decreases events.len(),
{
    if events.len() > 0 {
        let shorter = events.drop_last();
        let last = events.len() - 1;
        nothing_is_sent_on_a_guess(executor, shorter);
        let before = broadcast_after(executor, shorter);
        if before is Load && events.last() is Loaded {
            if let BroadcastEvent::Loaded(Some(hex)) = events.last() {
                assert(loads(events[last], hex));
            }
        } else if before is AskSolana || before is Send {
            let hex = match before {
                BroadcastStep::AskSolana { signed_tx_hex } => signed_tx_hex,
                BroadcastStep::Send { signed_tx_hex } => signed_tx_hex,
                _ => arbitrary(),
            };
            let i = choose|i: int| 0 <= i < shorter.len() && loads(#[trigger] shorter[i], hex);
            assert(loads(events[i], hex));
            if before is Send && executor.checks_chain {
                let j = choose|j: int| 0 <= j < shorter.len() && says_unpaid(#[trigger] shorter[j]);
                assert(says_unpaid(events[j]));
            }
            if before is AskSolana && says_unpaid(events[last]) {
                assert(says_unpaid(events[last]));
            }
        }
    }
}

/// The step after some events of resolving a payout.
pub open spec fn reconcile_after(depth: i64, events: Seq<ReconcileEvent>) -> ReconcileStep
    decreases events.len(),
{
    if events.len() == 0 {
        ReconcileStep::Load
    } else {
        next_reconcile(depth, reconcile_after(depth, events.drop_last()), events.last())
    }
}

/// Whether a node reported this status.
pub open spec fn reports(event: ReconcileEvent, status: TxStatus) -> bool {
    event == ReconcileEvent::Status(Ok(Some(status)))
}

/// Whether a node reported the block on the main chain.
pub open spec fn confirms_block(event: ReconcileEvent) -> bool {
    event matches ReconcileEvent::OnMainChain(Ok(true))
}

/// Whether a node reported a status, and its block, where it names one, on the
/// main chain.
pub open spec fn was_seen(events: Seq<ReconcileEvent>, status: TxStatus) -> bool {
    &&& exists|i: int| 0 <= i < events.len() && reports(#[trigger] events[i], status)
    &&& status.block_hash_hex is Some ==> exists|i: int|
        0 <= i < events.len() && confirms_block(#[trigger] events[i])
}

/// A payout is completed only on a reported depth, in a block that a node
/// reported on the main chain.
pub proof fn completion_needs_a_reported_depth(depth: i64, events: Seq<ReconcileEvent>)
    ensures
        match reconcile_after(depth, events) {
            ReconcileStep::AskChain(status) => exists|i: int|
                0 <= i < events.len() && reports(#[trigger] events[i], status),
            ReconcileStep::Record(status) => was_seen(events, status),
            ReconcileStep::Settle { complete, .. } => complete ==> exists|status: TxStatus|
                status.confirmations >= depth && #[trigger] was_seen(events, status),
            _ => true,
        },
    decreases events.len(),
{
    if events.len() > 0 {
        let shorter = events.drop_last();
        let last = events.len() - 1;
        completion_needs_a_reported_depth(depth, shorter);
        let before = reconcile_after(depth, shorter);
        match before {
            ReconcileStep::AskNode { .. } => {
                if let ReconcileEvent::Status(Ok(Some(status))) = events.last() {
                    assert(reports(events[last], status));
                }
            },
            ReconcileStep::AskChain(status) => {
                let i = choose|i: int| 0 <= i < shorter.len() && reports(#[trigger] shorter[i], status);
                assert(reports(events[i], status));
                if confirms_block(events.last()) {
                    assert(confirms_block(events[last]));
                }
            },
            ReconcileStep::Record(status) => {
                lemma_seen_stays(events, status);
            },
            ReconcileStep::Settle { complete, .. } => {
                if complete {
                    let status = choose|status: TxStatus|
                        status.confirmations >= depth && #[trigger] was_seen(shorter, status);
                    lemma_seen_stays(events, status);
                }
            },
            _ => {},
        }
    }
}

proof fn lemma_seen_stays(events: Seq<ReconcileEvent>, status: TxStatus)
    requires
        events.len() > 0,
        was_seen(events.drop_last(), status),
    ensures
        was_seen(events, status),
{
    let shorter = events.drop_last();
    let i = choose|i: int| 0 <= i < shorter.len() && reports(#[trigger] shorter[i], status);
    assert(reports(events[i], status));
    if status.block_hash_hex is Some {
        let j = choose|j: int| 0 <= j < shorter.len() && confirms_block(#[trigger] shorter[j]);
        assert(confirms_block(events[j]));
    }
}

/// A payout that the node reports at its depth or beyond is completed, and one
/// that is not so deep is not, whatever state it was in before. Only one that
/// was just broadcast is news as confirming.
pub proof fn a_payout_at_its_depth_is_completed(
    depth: i64,
    status: TxStatus,
    state: WithdrawalState,
)
    ensures
        ({
            let next = next_reconcile(
                depth,
                ReconcileStep::Record(status),
                ReconcileEvent::Recorded(state),
            );
            &&& next is Settle
            &&& next->complete <==> depth <= status.confirmations
            &&& next->confirming is Some <==> state == WithdrawalState::Broadcast
            &&& (next->confirming matches Some(t) ==> t.state == WithdrawalState::Confirming
                && t.note is None)
        }),
{
}

/// From its start to its end: a payout whose transaction the node knows, in a
/// block on the main chain or in none yet, is settled; and it is completed
/// exactly where the node's count has reached the depth.
pub proof fn a_known_payout_is_settled(
    depth: i64,
    txid_hex: String,
    status: TxStatus,
    state: WithdrawalState,
)
    ensures
        ({
            let asked = seq![
                ReconcileEvent::Loaded(Some(txid_hex)),
                ReconcileEvent::Status(Ok(Some(status))),
            ];
            let located = if status.block_hash_hex is Some {
                asked.push(ReconcileEvent::OnMainChain(Ok(true)))
            } else {
                asked
            };
            let end = reconcile_after(depth, located.push(ReconcileEvent::Recorded(state)));
            &&& end is Settle
            &&& end->complete <==> depth <= status.confirmations
        }),
{
    let loaded = seq![ReconcileEvent::Loaded(Some(txid_hex))];
    let asked = seq![
        ReconcileEvent::Loaded(Some(txid_hex)),
        ReconcileEvent::Status(Ok(Some(status))),
    ];
    let located = if status.block_hash_hex is Some {
        asked.push(ReconcileEvent::OnMainChain(Ok(true)))
    } else {
        asked
    };
    let all = located.push(ReconcileEvent::Recorded(state));
    assert(loaded.drop_last() =~= Seq::empty());
    assert(reconcile_after(depth, Seq::empty()) == ReconcileStep::Load);
    assert(reconcile_after(depth, loaded) == ReconcileStep::AskNode { txid_hex });
    assert(asked.drop_last() =~= loaded);
    if status.block_hash_hex is Some {
        assert(reconcile_after(depth, asked) == ReconcileStep::AskChain(status));
        assert(located.drop_last() =~= asked);
    }
    assert(reconcile_after(depth, located) == ReconcileStep::Record(status));
    assert(all.drop_last() =~= located);
}

/// A payout is orphaned exactly where the node says that it does not know the
/// transaction, or that its block is not on the main chain. A node that cannot
/// answer orphans nothing: the pass fails.
pub proof fn only_a_node_that_answers_orphans_a_payout(
    depth: i64,
    txid_hex: String,
    seen: TxStatus,
    status: Result<Option<TxStatus>, RpcError>,
    on_chain: Result<bool, RpcError>,
)
    ensures
        ({
            let asked = next_reconcile(
                depth,
                ReconcileStep::AskNode { txid_hex },
                ReconcileEvent::Status(status),
            );
            &&& asked is Orphan <==> status == Ok::<Option<TxStatus>, RpcError>(None)
            &&& (asked matches ReconcileStep::Orphan(t) ==> t.state == WithdrawalState::Orphaned
                && t.note == Some(Note::UnknownToNode))
            &&& asked is Fail <==> status is Err
            &&& (status matches Err(e) ==> asked == ReconcileStep::Fail(classified(e)))
            &&& (status matches Ok(Some(s)) ==> (s.block_hash_hex is Some && asked
                == ReconcileStep::AskChain(s)) || (s.block_hash_hex is None && asked
                == ReconcileStep::Record(s)))
        }),
        ({
            let located = next_reconcile(
                depth,
                ReconcileStep::AskChain(seen),
                ReconcileEvent::OnMainChain(on_chain),
            );
            &&& located is Orphan <==> on_chain == Ok::<bool, RpcError>(false)
            &&& (located matches ReconcileStep::Orphan(t) ==> t.state == WithdrawalState::Orphaned
                && t.note == Some(Note::ReorgedAway))
            &&& located is Record <==> on_chain == Ok::<bool, RpcError>(true)
            &&& (located matches ReconcileStep::Record(s) ==> s == seen)
            &&& (on_chain matches Err(e) ==> located == ReconcileStep::Fail(classified(e)))
        }),
{
}

/// Resolving looks a payout up by its stored id, and stops where there is none.
/// What is settled, orphaned, stopped or failed stays so, and nothing changes on
/// an event that was not asked for.
pub proof fn resolving_takes_one_answer_at_a_time(
    depth: i64,
    step: ReconcileStep,
    event: ReconcileEvent,
    loaded: Option<String>,
)
    ensures
        ({
            let next = next_reconcile(depth, ReconcileStep::Load, ReconcileEvent::Loaded(loaded));
            &&& loaded is None <==> next is Stop
            &&& (loaded matches Some(txid_hex) ==> next == ReconcileStep::AskNode { txid_hex })
        }),
        step is Settle || step is Orphan || step is Stop || step is Fail ==> next_reconcile(
            depth,
            step,
            event,
        ) == step,
        next_reconcile(depth, step, event) != step ==> (step is Load && event is Loaded) || (
        step is AskNode && event is Status) || (step is AskChain && event is OnMainChain) || (
        step is Record && event is Recorded),
{
}

/// A signed payout is sent, unless Solana has to be asked first and does not say
/// that the withdrawal is open; one that is not signed is left alone.
pub proof fn a_signed_payout_is_sent(
    executor: WithdrawalExecutor,
    loaded: Option<String>,
    signed_tx_hex: String,
    completed: Result<bool, String>,
)
    ensures
        ({
            let next = executor.next_broadcast(
                BroadcastStep::Load,
                BroadcastEvent::Loaded(loaded),
            );
            &&& loaded is None <==> next is Stop
            &&& (loaded matches Some(hex) ==> (executor.checks_chain ==> next
                == BroadcastStep::AskSolana { signed_tx_hex: hex }))
            &&& (loaded matches Some(hex) ==> (!executor.checks_chain ==> next
                == BroadcastStep::Send { signed_tx_hex: hex }))
        }),
        executor.checks_chain ==> ({
            let next = executor.next_broadcast(
                BroadcastStep::AskSolana { signed_tx_hex },
                BroadcastEvent::Completed(completed),
            );
            &&& next == (BroadcastStep::Send { signed_tx_hex }) <==> completed == Ok::<
                bool,
                String,
            >(false)
            &&& next is Stop <==> completed != Ok::<bool, String>(false)
        }),
{
}

/// What a node makes of a payout decides what follows: gone inputs are looked
/// into, a failed call fails the pass, and a payout that the node has is
/// recorded and resolved at once. An orphaned payout that the node has again is
/// back in broadcast.
pub proof fn a_sent_payout_is_resolved_next(
    executor: WithdrawalExecutor,
    signed_tx_hex: String,
    sent: Result<BroadcastOutcome, RpcError>,
    state: Option<WithdrawalState>,
    failure: ExecutorError,
)
    ensures
        ({
            let next = executor.next_broadcast(
                BroadcastStep::Send { signed_tx_hex },
                BroadcastEvent::Sent(sent),
            );
            &&& next is InputsGone <==> sent == Ok::<BroadcastOutcome, RpcError>(
                BroadcastOutcome::MissingInputs,
            )
            &&& next is Fail <==> sent is Err
            &&& (sent matches Err(e) ==> next == BroadcastStep::Fail(classified(e)))
            &&& next is Record <==> (sent matches Ok(outcome) && !(outcome is MissingInputs))
        }),
        ({
            let next = executor.next_broadcast(
                BroadcastStep::Record,
                BroadcastEvent::Recorded(state),
            );
            &&& next is Accepted
            &&& next->Accepted_0 is Some <==> state == Some(WithdrawalState::Orphaned)
            &&& (next->Accepted_0 matches Some(t) ==> t.state == WithdrawalState::Broadcast
                && t.note == Some(Note::Rebroadcast))
            &&& next.is_resolved_next()
        }),
        BroadcastStep::InputsGone.is_resolved_next(),
        !BroadcastStep::Stop.is_resolved_next(),
        !BroadcastStep::Fail(failure).is_resolved_next(),
        !BroadcastStep::Load.is_resolved_next(),
        !BroadcastStep::Record.is_resolved_next(),
        !(BroadcastStep::AskSolana { signed_tx_hex }).is_resolved_next(),
        !(BroadcastStep::Send { signed_tx_hex }).is_resolved_next(),
{
}

/// Broadcasting ends where it ended, and changes on no event that was not asked
/// for.
pub proof fn broadcasting_takes_one_answer_at_a_time(
    executor: WithdrawalExecutor,
    step: BroadcastStep,
    event: BroadcastEvent,
)
    ensures
        step is Accepted || step is InputsGone || step is Stop || step is Fail
            ==> executor.next_broadcast(step, event) == step,
        executor.next_broadcast(step, event) != step ==> (step is Load && event is Loaded) || (
        step is AskSolana && event is Completed) || (step is Send && event is Sent) || (
        step is Record && event is Recorded),
{
}

/// Every payout is counted once where its step ends: as broadcast, orphaned,
/// completed or confirming.
pub proof fn a_payout_is_counted_as_what_became_of_it(
    sent: BroadcastStep,
    resolved: ReconcileStep,
    report: WithdrawalTickReport,
)
    requires
        report.has_room(),
    ensures
        sent is Accepted <==> sent.counted(report).broadcast == report.broadcast + 1,
        sent is Accepted ==> sent.counted(report).total() == report.total() + 1,
        !(sent is Accepted) ==> sent.counted(report) == report,
        resolved is Orphan <==> resolved.counted(report).orphaned == report.orphaned + 1,
        resolved is Settle && resolved->complete <==> resolved.counted(report).completed
            == report.completed + 1,
        resolved is Settle && !resolved->complete <==> resolved.counted(report).confirming
            == report.confirming + 1,
        resolved is Orphan || resolved is Settle ==> resolved.counted(report).total()
            == report.total() + 1,
        !(resolved is Orphan || resolved is Settle) ==> resolved.counted(report) == report,
{
}

} // verus!
