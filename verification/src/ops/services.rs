//! What the unattended services do after each pass.
//!
//! Each service runs on its own, so that a stall on one side never blocks the
//! others. A service that has lost its database ends; everything else is tried
//! again.

use crate::solana::rpc::SolanaRpcError;
use crate::withdrawal::executor::{ExecutorError, WithdrawalTickReport};
use vstd::prelude::*;

verus! {

/// What a service does after a pass.
#[derive(Debug, Clone, Copy, PartialEq, Eq, Structural)]
pub enum AfterTick {
    /// Sleep this many milliseconds, then run the next pass.
    Sleep(u64),
    /// End the service with an error.
    Exit,
}

/// How long a halted indexer sleeps at a time. The process stays alive for
/// whoever probes it, and does no more work.
pub const HALTED_SLEEP_MS: u64 = 3_600_000;

/// A reorganisation that the indexer rolled back.
#[derive(Debug, Clone, Copy, PartialEq, Eq, Structural)]
pub struct Reorg {
    pub fork_height: i64,
    pub old_tip_height: i64,
    pub orphaned_count: u64,
}

/// How a pass of the indexer ended.
#[derive(Debug, Clone, Copy, PartialEq, Eq, Structural)]
pub enum IndexerTick {
    Progressed { reorg: Option<Reorg> },
    /// A reorganisation is deeper than the indexer may roll back.
    Halted { attempted_depth: i64 },
    NodeUnavailable,
    Rpc,
    Db,
}

/// What is published for operators after a pass of the indexer.
#[derive(Debug, Clone, Copy, PartialEq, Eq, Structural)]
pub enum IndexerNews {
    /// The indexer made a pass, and rolled this many blocks back.
    Ticked { reorg_depth: Option<i64> },
    /// The indexer stopped at a reorganisation of this depth.
    Halted { attempted_depth: i64 },
    Nothing,
}

/// What is published after a pass of the indexer, and what follows.
pub open spec fn indexer_step(tick: IndexerTick, poll_ms: u64, unavailable_ms: u64) -> (
    IndexerNews,
    AfterTick,
) {
    match tick {
        IndexerTick::Progressed { reorg } => (
            IndexerNews::Ticked {
                reorg_depth: match reorg {
                    Some(r) => Some((r.old_tip_height - r.fork_height) as i64),
                    None => None,
                },
            },
            AfterTick::Sleep(poll_ms),
        ),
        IndexerTick::Halted { attempted_depth } => (
            IndexerNews::Halted { attempted_depth },
            AfterTick::Sleep(HALTED_SLEEP_MS),
        ),
        IndexerTick::NodeUnavailable => (IndexerNews::Nothing, AfterTick::Sleep(unavailable_ms)),
        IndexerTick::Rpc => (IndexerNews::Nothing, AfterTick::Sleep(poll_ms)),
        IndexerTick::Db => (IndexerNews::Nothing, AfterTick::Exit),
    }
}

/// Decides what is published after a pass of the indexer, and what follows.
pub fn run_indexer_loop(tick: IndexerTick, poll_ms: u64, unavailable_ms: u64) -> (step: (
    IndexerNews,
    AfterTick,
))
    requires
        tick matches IndexerTick::Progressed { reorg: Some(r) } ==> i64::MIN <= r.old_tip_height
            - r.fork_height <= i64::MAX,
    ensures
        step == indexer_step(tick, poll_ms, unavailable_ms),
{
    match tick {
        IndexerTick::Progressed { reorg } => {
            let reorg_depth: Option<i64> = match reorg {
                Some(r) => Some(r.old_tip_height - r.fork_height),
                None => None,
            };
            (IndexerNews::Ticked { reorg_depth }, AfterTick::Sleep(poll_ms))
        },
        IndexerTick::Halted { attempted_depth } => (
            IndexerNews::Halted { attempted_depth },
            AfterTick::Sleep(HALTED_SLEEP_MS),
        ),
        IndexerTick::NodeUnavailable => (IndexerNews::Nothing, AfterTick::Sleep(unavailable_ms)),
        IndexerTick::Rpc => (IndexerNews::Nothing, AfterTick::Sleep(poll_ms)),
        IndexerTick::Db => (IndexerNews::Nothing, AfterTick::Exit),
    }
}

/// How a pass of the mint orchestrator or of the completion service ended.
#[derive(Debug, Clone, Copy, PartialEq, Eq, Structural)]
pub enum ServiceTick {
    Done,
    NodeUnavailable,
    Db,
    Other,
}

/// Decides what follows a pass of the mint orchestrator.
pub fn run_orchestrator_loop(tick: ServiceTick, poll_ms: u64) -> (next: AfterTick)
    ensures
        next == if tick is Db {
            AfterTick::Exit
        } else {
            AfterTick::Sleep(poll_ms)
        },
{
    match tick {
        ServiceTick::Db => AfterTick::Exit,
        _ => AfterTick::Sleep(poll_ms),
    }
}

/// Decides what follows a pass of the completion service. Falling short of the
/// threshold is an ordinary outcome: peers that have not confirmed a payout
/// yet are right to refuse.
pub fn run_completion_loop(tick: ServiceTick, poll_ms: u64) -> (next: AfterTick)
    ensures
        next == if tick is Db {
            AfterTick::Exit
        } else {
            AfterTick::Sleep(poll_ms)
        },
{
    match tick {
        ServiceTick::Db => AfterTick::Exit,
        _ => AfterTick::Sleep(poll_ms),
    }
}

/// Decides what follows a pass of the withdrawal executor.
pub fn run_withdrawal_loop(
    outcome: &Result<WithdrawalTickReport, ExecutorError>,
    poll_ms: u64,
) -> (next: AfterTick)
    ensures
        next == if outcome matches Err(ExecutorError::Db(_)) {
            AfterTick::Exit
        } else {
            AfterTick::Sleep(poll_ms)
        },
{
    match outcome {
        Err(ExecutorError::Db(_)) => AfterTick::Exit,
        _ => AfterTick::Sleep(poll_ms),
    }
}

/// What one pass of the withdrawal service does next.
#[derive(Debug, PartialEq, Eq)]
pub enum PassStep {
    /// Look for withdrawal requests on Solana.
    Scan,
    /// Record the requests that were found.
    Ingest,
    /// Run the executor over every withdrawal that is known.
    Execute,
    /// The pass is over.
    Done(Result<WithdrawalTickReport, ExecutorError>),
}

/// What came of a step.
#[derive(Debug, PartialEq, Eq)]
pub enum PassEvent {
    Scanned(Result<(), SolanaRpcError>),
    /// How many requests were new, or why they could not be recorded.
    Ingested(Result<u32, ExecutorError>),
    Executed(Result<WithdrawalTickReport, ExecutorError>),
}

/// What follows an event. An event that the step does not wait for changes
/// nothing.
pub open spec fn pass_step(step: PassStep, event: PassEvent) -> PassStep {
    match (step, event) {
        (PassStep::Scan, PassEvent::Scanned(Ok(_))) => PassStep::Ingest,
        (PassStep::Scan, PassEvent::Scanned(Err(_))) => PassStep::Execute,
        (PassStep::Ingest, PassEvent::Ingested(Ok(_))) => PassStep::Execute,
        (PassStep::Ingest, PassEvent::Ingested(Err(e))) => PassStep::Done(Err(e)),
        (PassStep::Execute, PassEvent::Executed(outcome)) => PassStep::Done(outcome),
        _ => step,
    }
}

/// Decides what one pass of the withdrawal service does next. A scan that
/// failed is no reason to leave known withdrawals alone: an outage of Solana
/// must not strand payouts that were discovered before it started.
pub fn withdrawal_tick(step: PassStep, event: PassEvent) -> (next: PassStep)
    ensures
        next == pass_step(step, event),
{
    match (step, event) {
        (PassStep::Scan, PassEvent::Scanned(Ok(_))) => PassStep::Ingest,
        (PassStep::Scan, PassEvent::Scanned(Err(_))) => PassStep::Execute,
        (PassStep::Ingest, PassEvent::Ingested(Ok(_))) => PassStep::Execute,
        (PassStep::Ingest, PassEvent::Ingested(Err(e))) => PassStep::Done(Err(e)),
        (PassStep::Execute, PassEvent::Executed(outcome)) => PassStep::Done(outcome),
        (other, _) => other,
    }
}

/// Whether a pass of the withdrawal executor is worth a line in the log.
pub fn is_worth_a_line(report: &WithdrawalTickReport) -> (worth: bool)
    ensures
        worth == (report.completed > 0 || report.signed > 0 || report.halted > 0 || report.failed
            > 0),
{
    report.completed > 0 || report.signed > 0 || report.halted > 0 || report.failed > 0
}

/// Where a pass stands after the given events.
pub open spec fn pass_after(events: Seq<PassEvent>) -> PassStep
    decreases events.len(),
{
    if events.len() == 0 {
        PassStep::Scan
    } else {
        pass_step(pass_after(events.drop_last()), events.last())
    }
}

/// Whether an event is what ended a pass with the given outcome.
pub open spec fn ended_by(
    event: PassEvent,
    outcome: Result<WithdrawalTickReport, ExecutorError>,
) -> bool {
    ||| event == PassEvent::Executed(outcome)
    ||| outcome matches Err(e) && event == PassEvent::Ingested(Err(e))
}

/// Whatever a scan gives, the executor runs: a pass ends as the executor did,
/// or because found requests could not be recorded.
pub proof fn an_outage_of_solana_strands_no_payout(
    events: Seq<PassEvent>,
    outcome: Result<WithdrawalTickReport, ExecutorError>,
)
    requires
        pass_after(events) == PassStep::Done(outcome),
    ensures
        exists|i: int| 0 <= i < events.len() && #[trigger] ended_by(events[i], outcome),
    decreases events.len(),
{
    let before = events.drop_last();
    if pass_after(before) is Done {
        an_outage_of_solana_strands_no_payout(before, outcome);
        let i = choose|i: int| 0 <= i < before.len() && #[trigger] ended_by(before[i], outcome);
        assert(ended_by(events[i], outcome));
    } else {
        assert(ended_by(events[events.len() - 1], outcome));
    }
}

/// Only a lost database ends a service: everything else that can go wrong in a
/// pass of the indexer is tried again.
pub proof fn only_a_lost_database_ends_the_indexer(
    tick: IndexerTick,
    poll_ms: u64,
    unavailable_ms: u64,
)
    ensures
        indexer_step(tick, poll_ms, unavailable_ms).1 is Exit <==> tick is Db,
{
}

/// After a pass the indexer sleeps as long as its pass asks for: the usual
/// interval after one that went through or that the node refused, its own
/// interval where the node is away, and an hour where it halted. It ends exactly
/// where its database fails it.
pub proof fn the_indexer_sleeps_as_its_pass_asks_for(
    tick: IndexerTick,
    poll_ms: u64,
    unavailable_ms: u64,
)
    ensures
        tick is Progressed || tick is Rpc ==> indexer_step(tick, poll_ms, unavailable_ms).1
            == AfterTick::Sleep(poll_ms),
        tick is NodeUnavailable ==> indexer_step(tick, poll_ms, unavailable_ms).1
            == AfterTick::Sleep(unavailable_ms),
        tick is Halted ==> indexer_step(tick, poll_ms, unavailable_ms).1 == AfterTick::Sleep(
            3_600_000,
        ),
        tick is Db <==> indexer_step(tick, poll_ms, unavailable_ms).1 is Exit,
        tick is Progressed <==> indexer_step(tick, poll_ms, unavailable_ms).0 is Ticked,
        tick is Halted <==> indexer_step(tick, poll_ms, unavailable_ms).0 is Halted,
        tick matches IndexerTick::Halted { attempted_depth } ==> indexer_step(
            tick,
            poll_ms,
            unavailable_ms,
        ).0 == (IndexerNews::Halted { attempted_depth }),
        tick matches IndexerTick::Progressed { reorg: None } ==> indexer_step(
            tick,
            poll_ms,
            unavailable_ms,
        ).0 == (IndexerNews::Ticked { reorg_depth: None }),
{
}

/// A reorganisation is published with its depth: how many blocks lie between
/// where the chains part and the old tip.
pub proof fn a_reorganisation_is_published_with_its_depth(
    reorg: Reorg,
    poll_ms: u64,
    unavailable_ms: u64,
)
    requires
        i64::MIN <= reorg.old_tip_height - reorg.fork_height <= i64::MAX,
    ensures
        indexer_step(
            IndexerTick::Progressed { reorg: Some(reorg) },
            poll_ms,
            unavailable_ms,
        ).0 matches IndexerNews::Ticked { reorg_depth: Some(depth) } && reorg.fork_height + depth
            == reorg.old_tip_height,
{
}

/// One pass from start to end: whether the scan succeeds decides only whether
/// anything is recorded. The executor runs either way, and its outcome is that
/// of the pass; only requests that cannot be recorded end it before.
pub proof fn a_pass_runs_the_executor(
    scanned: Result<(), SolanaRpcError>,
    ingested: Result<u32, ExecutorError>,
    outcome: Result<WithdrawalTickReport, ExecutorError>,
)
    ensures
        scanned is Ok <==> pass_step(PassStep::Scan, PassEvent::Scanned(scanned)) is Ingest,
        scanned is Err <==> pass_step(PassStep::Scan, PassEvent::Scanned(scanned)) is Execute,
        ingested is Ok <==> pass_step(PassStep::Ingest, PassEvent::Ingested(ingested)) is Execute,
        ingested matches Err(e) ==> pass_step(PassStep::Ingest, PassEvent::Ingested(ingested))
            == PassStep::Done(Err(e)),
        pass_step(PassStep::Execute, PassEvent::Executed(outcome)) == PassStep::Done(outcome),
{
}

/// A pass that is over stays so, and changes on no event that was not asked for.
pub proof fn a_pass_takes_one_answer_at_a_time(step: PassStep, event: PassEvent)
    ensures
        step is Done ==> pass_step(step, event) == step,
        pass_step(step, event) != step ==> (step is Scan && event is Scanned) || (step is Ingest
            && event is Ingested) || (step is Execute && event is Executed),
{
}

/// A service ends exactly where its own database fails it, and otherwise goes on
/// after the usual interval, whatever else went wrong.
pub proof fn only_a_failed_database_ends_a_service(
    tick: ServiceTick,
    outcome: Result<WithdrawalTickReport, ExecutorError>,
    poll_ms: u64,
    orchestrator: AfterTick,
    completion: AfterTick,
    withdrawal: AfterTick,
)
    requires
        call_ensures(run_orchestrator_loop, (tick, poll_ms), orchestrator),
        call_ensures(run_completion_loop, (tick, poll_ms), completion),
        call_ensures(run_withdrawal_loop, (&outcome, poll_ms), withdrawal),
    ensures
        orchestrator is Exit <==> tick is Db,
        completion is Exit <==> tick is Db,
        withdrawal is Exit <==> (outcome matches Err(ExecutorError::Db(_))),
        orchestrator is Exit || orchestrator == AfterTick::Sleep(poll_ms),
        completion is Exit || completion == AfterTick::Sleep(poll_ms),
        withdrawal is Exit || withdrawal == AfterTick::Sleep(poll_ms),
{
}

/// A pass is worth a line exactly where something was completed or signed, or
/// came to a stop.
pub proof fn a_quiet_pass_is_not_reported(report: WithdrawalTickReport, worth: bool)
    requires
        call_ensures(is_worth_a_line, (&report,), worth),
    ensures
        !worth <==> report.completed == 0 && report.signed == 0 && report.halted == 0
            && report.failed == 0,
{
}

} // verus!
