//! Signing a payout: the guards, the signers' partial signatures, the
//! assembled transaction, and every check in front of recording it.

use crate::glc::hex::{decode_exact, hex_bytes, is_hex, HexError};
use crate::glc::rpc::RpcError;
use crate::glc::withdrawal_db::{SignablePayout, WithdrawalState};
use crate::withdrawal::builder::DecodedTx;
use crate::withdrawal::executor::{
    classified, classify, ExecutorError, Note, Transition, WithdrawalExecutor,
    WithdrawalTickReport,
};
use crate::withdrawal::multisig::PartialSignature;
use vstd::prelude::*;

verus! {

/// A fully signed transaction, with the id that this process computed for it.
#[derive(Debug, PartialEq, Eq)]
pub struct AssembledTx {
    pub signed_tx_hex: String,
    pub txid_hex: String,
}

/// Why no signed transaction came of the partial signatures.
#[derive(Debug, PartialEq, Eq)]
pub enum AssemblyFailure {
    /// The stored transaction could not be parsed.
    Parse(String),
    /// The partial signatures do not form a spendable transaction.
    Assembly(String),
}

/// What signing a payout does next.
#[derive(Debug, PartialEq, Eq)]
pub enum SignStep {
    /// Run the guards in front of signing and load the payout.
    Guard,
    /// See whether the observation of the validator epoch is fresh.
    CheckEpoch(SignablePayout),
    /// Ask the designated signers, under the epoch that was observed.
    Collect { payout: SignablePayout, epoch: u64 },
    /// Parse the stored transaction and assemble the signed one.
    Assemble { payout: SignablePayout, partials: Vec<PartialSignature> },
    /// Have the node decode the signed transaction.
    DecodeSigned { payout: SignablePayout, signed: AssembledTx },
    /// Have the node decode the stored transaction too, and compare the two.
    Compare { payout: SignablePayout, signed: AssembledTx, decoded: DecodedTx },
    /// Record the signed transaction and its id.
    Record { signed_tx_hex: String, txid: [u8; 32] },
    /// Nothing this time; try again in the next pass.
    Wait,
    /// The guards refused the payout.
    Refused,
    /// Stop this withdrawal until a person has looked at it.
    Halt(Transition),
    Fail(ExecutorError),
}

/// What came back.
#[derive(Debug, PartialEq, Eq)]
pub enum SignEvent {
    Guarded(Result<SignablePayout, String>),
    /// The validator epoch that was observed, and whether that was recently.
    Epoch { epoch: u64, fresh: bool },
    Partials(Vec<PartialSignature>),
    Assembled(Result<AssembledTx, AssemblyFailure>),
    Decoded(Result<DecodedTx, RpcError>),
    /// Whether the signed transaction kept the outputs and the outpoints of
    /// the stored one, or why not.
    Compared(Result<Result<(), String>, RpcError>),
}

/// The move of a withdrawal that must not go on.
pub open spec fn halted(note: Note) -> Transition {
    Transition { state: WithdrawalState::IntegrityHalted, note: Some(note) }
}

/// Whether `next` follows the comparison of the signed transaction with the
/// stored one: it is recorded under the id that the node gave it.
pub open spec fn settles(
    signed: AssembledTx,
    decoded: DecodedTx,
    compared: Result<Result<(), String>, RpcError>,
    next: SignStep,
) -> bool {
    match compared {
        Err(e) => next == SignStep::Fail(classified(e)),
        Ok(Err(why)) => next == SignStep::Halt(halted(Note::OutputsAltered(why))),
        Ok(Ok(_)) => match next {
            SignStep::Record { signed_tx_hex, txid } => {
                &&& is_hex(decoded.txid_hex@) && decoded.txid_hex@.len() == 64
                &&& signed_tx_hex == signed.signed_tx_hex
                &&& txid@ == hex_bytes(decoded.txid_hex@)
            },
            SignStep::Fail(ExecutorError::Rpc(RpcError::Malformed(m))) => {
                &&& !(is_hex(decoded.txid_hex@) && decoded.txid_hex@.len() == 64)
                &&& m@ == if is_hex(decoded.txid_hex@) {
                    HexError::WrongLength.text()
                } else {
                    HexError::NotHex.text()
                }
            },
            _ => false,
        },
    }
}

/// Whether `next` follows an event, for a vault that needs `threshold`
/// signatures.
pub open spec fn signs(threshold: usize, step: SignStep, event: SignEvent, next: SignStep) -> bool {
    match (step, event) {
        (SignStep::Guard, SignEvent::Guarded(guarded)) => match guarded {
            Ok(payout) => next == SignStep::CheckEpoch(payout),
            Err(_) => next == SignStep::Refused,
        },
        (SignStep::CheckEpoch(payout), SignEvent::Epoch { epoch, fresh }) => next == if fresh {
            SignStep::Collect { payout, epoch }
        } else {
            SignStep::Wait
        },
        (SignStep::Collect { payout, .. }, SignEvent::Partials(partials)) => next == if partials@.len()
            < threshold {
            SignStep::Wait
        } else {
            SignStep::Assemble { payout, partials }
        },
        (SignStep::Assemble { payout, .. }, SignEvent::Assembled(assembled)) => match assembled {
            Ok(signed) => next == SignStep::DecodeSigned { payout, signed },
            Err(AssemblyFailure::Parse(why)) => next == SignStep::Fail(
                ExecutorError::Assembly(why),
            ),
            Err(AssemblyFailure::Assembly(why)) => next == SignStep::Halt(
                halted(Note::Assembly(why)),
            ),
        },
        (SignStep::DecodeSigned { payout, signed }, SignEvent::Decoded(decoded)) => match decoded {
            Err(e) => next == SignStep::Fail(classified(e)),
            Ok(tx) => next == if tx.txid_hex@ != signed.txid_hex@ {
                SignStep::Halt(halted(Note::TxidDisagrees))
            } else {
                SignStep::Compare { payout, signed, decoded: tx }
            },
        },
        (SignStep::Compare { signed, decoded, .. }, SignEvent::Compared(compared)) => settles(
            signed,
            decoded,
            compared,
            next,
        ),
        _ => next == step,
    }
}

impl WithdrawalExecutor {
    /// Decides what follows an event. Signing starts at [`SignStep::Guard`];
    /// an event that was not asked for changes nothing.
    ///
    /// Fewer partial signatures than the threshold are no error and no halt:
    /// that would strand a withdrawal over an ordinary outage.
    pub fn sign(&self, step: SignStep, event: SignEvent) -> (next: SignStep)
        ensures
            signs(self.config.vault.threshold, step, event, next),
    {
        match (step, event) {
            (SignStep::Guard, SignEvent::Guarded(guarded)) => match guarded {
                Ok(payout) => SignStep::CheckEpoch(payout),
                Err(_) => SignStep::Refused,
            },
            (SignStep::CheckEpoch(payout), SignEvent::Epoch { epoch, fresh }) => {
                if fresh {
                    SignStep::Collect { payout, epoch }
                } else {
                    SignStep::Wait
                }
            },
            (SignStep::Collect { payout, epoch: _ }, SignEvent::Partials(partials)) => {
                if partials.len() < self.config.vault.threshold {
                    SignStep::Wait
                } else {
                    SignStep::Assemble { payout, partials }
                }
            },
            (
                SignStep::Assemble { payout, partials: _ },
                SignEvent::Assembled(assembled),
            ) => match assembled {
                Ok(signed) => SignStep::DecodeSigned { payout, signed },
                Err(AssemblyFailure::Parse(why)) => SignStep::Fail(ExecutorError::Assembly(why)),
                Err(AssemblyFailure::Assembly(why)) => halt(Note::Assembly(why)),
            },
            (SignStep::DecodeSigned { payout, signed }, SignEvent::Decoded(decoded)) => match decoded {
                Err(e) => SignStep::Fail(classify(e)),
                Ok(tx) => {
                    if tx.txid_hex != signed.txid_hex {
                        halt(Note::TxidDisagrees)
                    } else {
                        SignStep::Compare { payout, signed, decoded: tx }
                    }
                },
            },
            (
                SignStep::Compare { signed, decoded, payout: _ },
                SignEvent::Compared(compared),
            ) => match compared {
                Err(e) => SignStep::Fail(classify(e)),
                Ok(Err(why)) => halt(Note::OutputsAltered(why)),
                Ok(Ok(_)) => match decode_exact::<32>(decoded.txid_hex.as_str()) {
                    Ok(txid) => SignStep::Record { signed_tx_hex: signed.signed_tx_hex, txid },
                    Err(e) => SignStep::Fail(
                        ExecutorError::Rpc(RpcError::Malformed(e.message())),
                    ),
                },
            },
            (other, _) => other,
        }
    }
}

fn halt(note: Note) -> (step: SignStep)
    ensures
        step == SignStep::Halt(halted(note)),
{
    SignStep::Halt(Transition { state: WithdrawalState::IntegrityHalted, note: Some(note) })
}

impl SignStep {
    /// The report after signing came to this step.
    pub open spec fn counted(self, report: WithdrawalTickReport) -> WithdrawalTickReport {
        match self {
            SignStep::Refused | SignStep::Halt(_) => WithdrawalTickReport {
                halted: (report.halted + 1) as u32,
                ..report
            },
            SignStep::Record { .. } => WithdrawalTickReport {
                signed: (report.signed + 1) as u32,
                ..report
            },
            _ => report,
        }
    }

    /// Counts a signing that came to this step.
    pub fn count(&self, report: &mut WithdrawalTickReport)
        requires
            old(report).has_room(),
        ensures
            *final(report) == self.counted(*old(report)),
    {
        match self {
            SignStep::Refused | SignStep::Halt(_) => {
                report.halted = report.halted + 1;
            },
            SignStep::Record { .. } => {
                report.signed = report.signed + 1;
            },
            _ => {},
        }
    }
}

/// A signing from its start: each step follows the one before it.
pub open spec fn is_signing(threshold: usize, steps: Seq<SignStep>, events: Seq<SignEvent>) -> bool {
    &&& steps.len() == events.len() + 1
    &&& steps[0] is Guard
    &&& forall|k: int|
        0 <= k < events.len() ==> signs(threshold, #[trigger] steps[k], events[k], steps[k + 1])
}

/// Whether the guards passed.
pub open spec fn guards_passed(event: SignEvent) -> bool {
    event matches SignEvent::Guarded(Ok(_))
}

/// Whether the epoch was fresh.
pub open spec fn epoch_was_fresh(event: SignEvent) -> bool {
    event matches SignEvent::Epoch { fresh, .. } && fresh
}

/// Whether enough signers answered.
pub open spec fn threshold_was_reached(threshold: usize, event: SignEvent) -> bool {
    event matches SignEvent::Partials(partials) && partials@.len() >= threshold
}

/// Whether this very transaction was assembled.
pub open spec fn was_assembled(signed: AssembledTx, event: SignEvent) -> bool {
    event matches SignEvent::Assembled(Ok(a)) && a == signed
}

/// Whether the node gave a transaction this id.
pub open spec fn node_agrees(txid_hex: Seq<char>, event: SignEvent) -> bool {
    event matches SignEvent::Decoded(Ok(tx)) && tx.txid_hex@ == txid_hex
}

/// Whether signing changed no output and no outpoint.
pub open spec fn outputs_were_kept(event: SignEvent) -> bool {
    event matches SignEvent::Compared(Ok(Ok(_)))
}

/// Whether some event satisfies a condition.
pub open spec fn saw(events: Seq<SignEvent>, condition: spec_fn(SignEvent) -> bool) -> bool {
    exists|i: int| 0 <= i < events.len() && condition(#[trigger] events[i])
}

proof fn lemma_saw_stays(events: Seq<SignEvent>, n: int, condition: spec_fn(SignEvent) -> bool)
    requires
        0 <= n < events.len(),
    ensures
        saw(events.take(n), condition) ==> saw(events.take(n + 1), condition),
        condition(events[n]) ==> saw(events.take(n + 1), condition),
{
    let shorter = events.take(n);
    let longer = events.take(n + 1);
    assert(longer[n] == events[n]);
    if saw(shorter, condition) {
        let i = choose|i: int| 0 <= i < shorter.len() && condition(#[trigger] shorter[i]);
        assert(longer[i] == shorter[i]);
    }
}

/// The conditions in front of an assembled transaction.
pub open spec fn may_assemble(threshold: usize, events: Seq<SignEvent>) -> bool {
    &&& saw(events, |e: SignEvent| guards_passed(e))
    &&& saw(events, |e: SignEvent| epoch_was_fresh(e))
    &&& saw(events, |e: SignEvent| threshold_was_reached(threshold, e))
}

/// Whether this very transaction was assembled, and the node agreed on its id.
pub open spec fn is_agreed(events: Seq<SignEvent>, signed: AssembledTx) -> bool {
    &&& saw(events, |e: SignEvent| was_assembled(signed, e))
    &&& saw(events, |e: SignEvent| node_agrees(signed.txid_hex@, e))
}

/// What has to be seen before a signed transaction is recorded.
pub open spec fn may_record(
    threshold: usize,
    events: Seq<SignEvent>,
    signed_tx_hex: String,
    txid: Seq<u8>,
) -> bool {
    &&& may_assemble(threshold, events)
    &&& saw(events, |e: SignEvent| outputs_were_kept(e))
    &&& exists|signed: AssembledTx|
        signed.signed_tx_hex == signed_tx_hex && hex_bytes(signed.txid_hex@) == txid
            && #[trigger] is_agreed(events, signed)
}

/// What holds of every step that a signing reaches.
proof fn lemma_signing(threshold: usize, steps: Seq<SignStep>, events: Seq<SignEvent>, n: int)
    requires
        is_signing(threshold, steps, events),
        0 <= n <= events.len(),
    ensures
        match steps[n] {
            SignStep::CheckEpoch(_) => saw(events.take(n), |e: SignEvent| guards_passed(e)),
            SignStep::Collect { .. } => {
                &&& saw(events.take(n), |e: SignEvent| guards_passed(e))
                &&& saw(events.take(n), |e: SignEvent| epoch_was_fresh(e))
            },
            SignStep::Assemble { .. } => may_assemble(threshold, events.take(n)),
            SignStep::DecodeSigned { signed, .. } => {
                &&& may_assemble(threshold, events.take(n))
                &&& saw(events.take(n), |e: SignEvent| was_assembled(signed, e))
            },
            SignStep::Compare { signed, decoded, .. } => {
                &&& may_assemble(threshold, events.take(n))
                &&& is_agreed(events.take(n), signed)
                &&& decoded.txid_hex@ == signed.txid_hex@
            },
            SignStep::Record { signed_tx_hex, txid } => may_record(
                threshold,
                events.take(n),
                signed_tx_hex,
                txid@,
            ),
            _ => true,
        },
    decreases n,
{
    if n > 0 {
        lemma_signing(threshold, steps, events, n - 1);
        let before = steps[n - 1];
        assert(signs(threshold, steps[n - 1], events[n - 1], steps[n - 1 + 1]));
        lemma_saw_stays(events, n - 1, |e: SignEvent| guards_passed(e));
        lemma_saw_stays(events, n - 1, |e: SignEvent| epoch_was_fresh(e));
        lemma_saw_stays(events, n - 1, |e: SignEvent| threshold_was_reached(threshold, e));
        lemma_saw_stays(events, n - 1, |e: SignEvent| outputs_were_kept(e));
        match before {
            SignStep::Assemble { .. } => {
                if let SignStep::DecodeSigned { signed, .. } = steps[n] {
                    lemma_saw_stays(events, n - 1, |e: SignEvent| was_assembled(signed, e));
                }
            },
            SignStep::DecodeSigned { signed, .. } => {
                lemma_saw_stays(events, n - 1, |e: SignEvent| was_assembled(signed, e));
                lemma_saw_stays(events, n - 1, |e: SignEvent| node_agrees(signed.txid_hex@, e));
            },
            SignStep::Compare { signed, .. } => {
                lemma_saw_stays(events, n - 1, |e: SignEvent| was_assembled(signed, e));
                lemma_saw_stays(events, n - 1, |e: SignEvent| node_agrees(signed.txid_hex@, e));
                assert(is_agreed(events.take(n), signed));
            },
            SignStep::Record { signed_tx_hex, txid } => {
                let earlier = events.take(n - 1);
                let signed = choose|signed: AssembledTx|
                    signed.signed_tx_hex == signed_tx_hex && hex_bytes(signed.txid_hex@) == txid@
                        && #[trigger] is_agreed(earlier, signed);
                lemma_saw_stays(events, n - 1, |e: SignEvent| was_assembled(signed, e));
                lemma_saw_stays(events, n - 1, |e: SignEvent| node_agrees(signed.txid_hex@, e));
                assert(is_agreed(events.take(n), signed));
            },
            _ => {},
        }
    }
}

/// A signed transaction is recorded, and so can be broadcast, only after the
/// guards passed, the epoch was fresh, the threshold was reached, the node
/// agreed on the id of the assembled transaction, and its outputs were found
/// unchanged. What is recorded is what was assembled, under that id.
pub proof fn a_payout_is_signed_only_after_every_check(
    threshold: usize,
    steps: Seq<SignStep>,
    events: Seq<SignEvent>,
)
    requires
        is_signing(threshold, steps, events),
        steps.last() is Record,
    ensures
        may_record(
            threshold,
            events,
            steps.last()->signed_tx_hex,
            steps.last()->txid@,
        ),
{
    lemma_signing(threshold, steps, events, events.len() as int);
    assert(events.take(events.len() as int) =~= events);
}

/// The guards decide whether signing starts at all, and only a fresh observation
/// of the epoch lets the signers be asked, under that epoch.
pub proof fn signers_are_asked_under_a_fresh_epoch(
    threshold: usize,
    guarded: Result<SignablePayout, String>,
    after_guard: SignStep,
    payout: SignablePayout,
    epoch: u64,
    fresh: bool,
    after_epoch: SignStep,
)
    requires
        signs(threshold, SignStep::Guard, SignEvent::Guarded(guarded), after_guard),
        signs(
            threshold,
            SignStep::CheckEpoch(payout),
            SignEvent::Epoch { epoch, fresh },
            after_epoch,
        ),
    ensures
        after_guard is Refused <==> guarded is Err,
        guarded matches Ok(p) ==> after_guard == SignStep::CheckEpoch(p),
        after_epoch == (SignStep::Collect { payout, epoch }) <==> fresh,
        after_epoch is Wait <==> !fresh,
{
}

/// Enough partial signatures are assembled, all of them and for the payout that
/// was asked about; fewer are waited for and never halt a withdrawal.
pub proof fn enough_partial_signatures_are_assembled(
    threshold: usize,
    payout: SignablePayout,
    epoch: u64,
    partials: Vec<PartialSignature>,
    next: SignStep,
)
    requires
        signs(
            threshold,
            SignStep::Collect { payout, epoch },
            SignEvent::Partials(partials),
            next,
        ),
    ensures
        next == (SignStep::Assemble { payout, partials }) <==> partials@.len() >= threshold,
        next is Wait <==> partials@.len() < threshold,
{
}

/// What came of the assembly: signatures that do not form a transaction halt the
/// withdrawal, a stored transaction that cannot be read fails the pass, and a
/// signed one is put to the node.
pub proof fn a_failed_assembly_is_looked_at(
    threshold: usize,
    payout: SignablePayout,
    partials: Vec<PartialSignature>,
    assembled: Result<AssembledTx, AssemblyFailure>,
    next: SignStep,
)
    requires
        signs(
            threshold,
            SignStep::Assemble { payout, partials },
            SignEvent::Assembled(assembled),
            next,
        ),
    ensures
        next is DecodeSigned <==> assembled is Ok,
        assembled matches Ok(signed) ==> next == (SignStep::DecodeSigned { payout, signed }),
        next is Halt <==> (assembled matches Err(AssemblyFailure::Assembly(_))),
        next is Fail <==> (assembled matches Err(AssemblyFailure::Parse(_))),
        assembled matches Err(AssemblyFailure::Assembly(why)) ==> (next matches SignStep::Halt(t)
            && t.state == WithdrawalState::IntegrityHalted && t.note == Some(
            Note::Assembly(why),
        )),
        assembled matches Err(AssemblyFailure::Parse(why)) ==> next == SignStep::Fail(
            ExecutorError::Assembly(why),
        ),
{
}

/// A node that gives the assembled transaction another id, or finds that signing
/// altered it, halts the withdrawal; a node that fails fails the pass.
pub proof fn a_signed_payout_that_disagrees_is_halted(
    threshold: usize,
    payout: SignablePayout,
    signed: AssembledTx,
    decoded: Result<DecodedTx, RpcError>,
    after_decoding: SignStep,
    tx: DecodedTx,
    compared: Result<Result<(), String>, RpcError>,
    after_comparing: SignStep,
)
    requires
        signs(
            threshold,
            SignStep::DecodeSigned { payout, signed },
            SignEvent::Decoded(decoded),
            after_decoding,
        ),
        signs(
            threshold,
            SignStep::Compare { payout, signed, decoded: tx },
            SignEvent::Compared(compared),
            after_comparing,
        ),
    ensures
        after_decoding is Fail <==> decoded is Err,
        decoded matches Err(e) ==> after_decoding == SignStep::Fail(classified(e)),
        after_decoding is Halt <==> (decoded matches Ok(d) && d.txid_hex@ != signed.txid_hex@),
        after_decoding matches SignStep::Halt(t) ==> t.state == WithdrawalState::IntegrityHalted
            && t.note == Some(Note::TxidDisagrees),
        decoded matches Ok(d) ==> (d.txid_hex@ == signed.txid_hex@ ==> after_decoding
            == (SignStep::Compare { payout, signed, decoded: d })),
        after_comparing is Halt <==> (compared matches Ok(Err(_))),
        compared matches Ok(Err(why)) ==> (after_comparing matches SignStep::Halt(t) && t.state
            == WithdrawalState::IntegrityHalted && t.note == Some(Note::OutputsAltered(why))),
        compared matches Err(e) ==> after_comparing == SignStep::Fail(classified(e)),
        after_comparing is Record <==> (compared matches Ok(Ok(_))) && is_hex(tx.txid_hex@)
            && tx.txid_hex@.len() == 64,
        after_comparing matches SignStep::Record { signed_tx_hex, txid } ==> signed_tx_hex
            == signed.signed_tx_hex && txid@ == hex_bytes(tx.txid_hex@),
{
}

/// Where every check passes, the payout is signed: what was assembled is
/// recorded, under the id that both sides gave it.
pub proof fn a_payout_that_passes_every_check_is_recorded(
    threshold: usize,
    steps: Seq<SignStep>,
    payout: SignablePayout,
    epoch: u64,
    partials: Vec<PartialSignature>,
    signed: AssembledTx,
    decoded: DecodedTx,
)
    requires
        is_signing(
            threshold,
            steps,
            seq![
                SignEvent::Guarded(Ok(payout)),
                SignEvent::Epoch { epoch, fresh: true },
                SignEvent::Partials(partials),
                SignEvent::Assembled(Ok(signed)),
                SignEvent::Decoded(Ok(decoded)),
                SignEvent::Compared(Ok(Ok(()))),
            ],
        ),
        partials@.len() >= threshold,
        decoded.txid_hex@ == signed.txid_hex@,
        is_hex(signed.txid_hex@),
        signed.txid_hex@.len() == 64,
    ensures
        steps.last() matches SignStep::Record { signed_tx_hex, txid } && signed_tx_hex
            == signed.signed_tx_hex && txid@ == hex_bytes(signed.txid_hex@),
{
    let events = seq![
        SignEvent::Guarded(Ok(payout)),
        SignEvent::Epoch { epoch, fresh: true },
        SignEvent::Partials(partials),
        SignEvent::Assembled(Ok(signed)),
        SignEvent::Decoded(Ok(decoded)),
        SignEvent::Compared(Ok(Ok(()))),
    ];
    assert(signs(threshold, steps[0], events[0], steps[0int + 1]));
    assert(steps[1] == SignStep::CheckEpoch(payout));
    assert(signs(threshold, steps[1], events[1], steps[1int + 1]));
    assert(steps[2] == SignStep::Collect { payout, epoch });
    assert(signs(threshold, steps[2], events[2], steps[2int + 1]));
    assert(steps[3] == SignStep::Assemble { payout, partials });
    assert(signs(threshold, steps[3], events[3], steps[3int + 1]));
    assert(steps[4] == SignStep::DecodeSigned { payout, signed });
    assert(signs(threshold, steps[4], events[4], steps[4int + 1]));
    assert(steps[5] == SignStep::Compare { payout, signed, decoded });
    assert(signs(threshold, steps[5], events[5], steps[5int + 1]));
}

/// Signing ends where it ended, and changes on no event that was not asked for.
/// It is counted once, as what became of it.
pub proof fn signing_takes_one_answer_at_a_time(
    threshold: usize,
    step: SignStep,
    event: SignEvent,
    next: SignStep,
    report: WithdrawalTickReport,
)
    requires
        signs(threshold, step, event, next),
        report.has_room(),
    ensures
        next != step ==> (step is Guard && event is Guarded) || (step is CheckEpoch
            && event is Epoch) || (step is Collect && event is Partials) || (step is Assemble
            && event is Assembled) || (step is DecodeSigned && event is Decoded) || (
        step is Compare && event is Compared),
        step is Refused || step is Halt <==> step.counted(report).halted == report.halted + 1,
        step is Record <==> step.counted(report).signed == report.signed + 1,
        step.counted(report).total() == report.total() + if step is Refused || step is Halt
            || step is Record {
            1int
        } else {
            0int
        },
{
}

} // verus!
