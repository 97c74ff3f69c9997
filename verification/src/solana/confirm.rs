//! Bounded transaction confirmation.
//!
//! A node that accepts a transaction has not included it: the blockhash can
//! expire, the leader can drop it. A command that changes state therefore
//! waits until its transaction has demonstrably confirmed, demonstrably
//! failed, or demonstrably can never land. What bounds the wait is the
//! blockhash: once it can no longer be used, the transaction can never
//! confirm. The deadline is only a backstop for a node that never answers.

use crate::solana::duration::{duration_text, Duration, NANOS_PER_SEC};
use crate::solana::rpc::SolanaRpcError;
use crate::text::{lemma_shows_both, lemma_shows_going_on, lemma_shows_within, shows};
use crate::withdrawal::address::base58_text;
use vstd::prelude::*;

verus! {

/// The signature that names a transaction.
#[derive(Debug, Clone, Copy, PartialEq, Eq)]
pub struct Signature {
    pub bytes: [u8; 64],
}

/// How long to wait, and how often to ask.
#[derive(Debug, Clone, Copy, PartialEq, Eq)]
pub struct ConfirmPolicy {
    /// Backstop for a node that never reports the transaction either way.
    pub deadline: Duration,
    pub poll_interval: Duration,
}

impl Default for ConfirmPolicy {
    /// A blockhash is valid for roughly a minute, so a transaction that has
    /// neither confirmed nor expired by ninety seconds is already anomalous.
    fn default() -> (policy: Self)
        ensures
            policy.deadline@ == 90 * NANOS_PER_SEC as nat,
            policy.poll_interval@ == 500 * 1_000_000nat,
    {
        ConfirmPolicy {
            deadline: Duration::from_secs(90),
            poll_interval: Duration::from_millis(500),
        }
    }
}

/// Why a transaction could not be confirmed.
///
/// Kept distinct because the next move differs: a rejection will repeat, an
/// expiry is safe to retry at once, and a timeout leaves the outcome unknown.
#[derive(Debug, PartialEq, Eq)]
pub enum ConfirmFailure {
    /// The transaction landed and the runtime rejected it.
    Rejected { signature: Signature, reason: String },
    /// The blockhash expired; nothing the transaction would have done has
    /// happened.
    Expired { signature: Signature },
    /// Neither confirmed nor expired within the deadline.
    TimedOut { signature: Signature, waited: Duration },
    Rpc { signature: Signature, source: SolanaRpcError },
}

/// The `Display` of `solana_sdk::signature::Signature`: its 64 bytes in base58.
#[verifier::external_body]
pub(crate) fn signature_text(signature: &Signature) -> (text: String)
    ensures
        text@ == base58_text(signature.bytes@),
{
    solana_sdk::signature::Signature::from(signature.bytes).to_string()
}

impl ConfirmFailure {
    /// The transaction whose fate this is.
    pub open spec fn about(self) -> Signature {
        match self {
            ConfirmFailure::Rejected { signature, .. } => signature,
            ConfirmFailure::Expired { signature } => signature,
            ConfirmFailure::TimedOut { signature, .. } => signature,
            ConfirmFailure::Rpc { signature, .. } => signature,
        }
    }

    /// What an operator reads.
    pub open spec fn text(self) -> Seq<char> {
        let name = base58_text(self.about().bytes@);
        match self {
            ConfirmFailure::Rejected { reason, .. } => "transaction "@ + name
                + " was rejected on chain: "@ + reason@,
            ConfirmFailure::Expired { .. } => "transaction "@ + name
                + " expired before it confirmed (its blockhash is no longer valid); nothing it would have done has taken effect"@,
            ConfirmFailure::TimedOut { waited, .. } => "transaction "@ + name
                + " was neither confirmed nor expired within "@ + duration_text(waited@)
                + "; its outcome is UNKNOWN — read the on-chain state back before retrying"@,
            ConfirmFailure::Rpc { source, .. } => "could not determine the fate of transaction "@
                + name + ": "@ + source.text(),
        }
    }

    /// The transaction whose fate this is.
    pub fn signature(&self) -> (signature: Signature)
        ensures
            signature == self.about(),
    {
        match self {
            ConfirmFailure::Rejected { signature, .. } => *signature,
            ConfirmFailure::Expired { signature } => *signature,
            ConfirmFailure::TimedOut { signature, .. } => *signature,
            ConfirmFailure::Rpc { signature, .. } => *signature,
        }
    }

    /// What an operator reads.
    pub fn message(&self) -> (m: String)
        ensures
            m@ == self.text(),
    {
        let name: String = signature_text(&self.signature());
        let mut out: String = String::new();
        match self {
            ConfirmFailure::Rejected { reason, .. } => {
                out.append("transaction ");
                out.append(name.as_str());
                out.append(" was rejected on chain: ");
                out.append(reason.as_str());
            },
            ConfirmFailure::Expired { .. } => {
                out.append("transaction ");
                out.append(name.as_str());
                out.append(
                    " expired before it confirmed (its blockhash is no longer valid); nothing it would have done has taken effect",
                );
            },
            ConfirmFailure::TimedOut { waited, .. } => {
                out.append("transaction ");
                out.append(name.as_str());
                out.append(" was neither confirmed nor expired within ");
                out.append(waited.show().as_str());
                out.append(
                    "; its outcome is UNKNOWN — read the on-chain state back before retrying",
                );
            },
            ConfirmFailure::Rpc { source, .. } => {
                out.append("could not determine the fate of transaction ");
                out.append(name.as_str());
                out.append(": ");
                out.append(source.message().as_str());
            },
        }
        assert(out@ =~= self.text());
        out
    }
}

/// What a node says of a transaction: nothing yet, success, or why it failed.
pub type StatusReply = Result<Option<Result<(), String>>, SolanaRpcError>;

/// What the wait does next.
#[derive(Debug, PartialEq, Eq)]
pub enum ConfirmState {
    /// Ask for the transaction's status.
    AskStatus,
    /// Ask whether the blockhash can still be used.
    AskBlockhash,
    /// Ask for the status once more before giving up.
    AskStatusAgain,
    /// Sleep for the poll interval.
    Sleep,
    Done(Result<(), ConfirmFailure>),
}

/// What came back.
#[derive(Debug, PartialEq, Eq)]
pub enum ConfirmEvent {
    Status(StatusReply),
    Blockhash { valid: Result<bool, SolanaRpcError>, waited: Duration },
    Woke,
}

/// What follows an event.
pub open spec fn next_state(
    state: ConfirmState,
    event: ConfirmEvent,
    signature: Signature,
    policy: ConfirmPolicy,
) -> ConfirmState {
    match (state, event) {
        (ConfirmState::AskStatus, ConfirmEvent::Status(reply)) => match reply {
            Ok(Some(Ok(_))) => ConfirmState::Done(Ok(())),
            Ok(Some(Err(reason))) => ConfirmState::Done(
                Err(ConfirmFailure::Rejected { signature, reason }),
            ),
            Ok(None) => ConfirmState::AskBlockhash,
            Err(source) => ConfirmState::Done(Err(ConfirmFailure::Rpc { signature, source })),
        },
        (ConfirmState::AskBlockhash, ConfirmEvent::Blockhash { valid, waited }) => match valid {
            Err(source) => ConfirmState::Done(Err(ConfirmFailure::Rpc { signature, source })),
            Ok(false) => ConfirmState::AskStatusAgain,
            Ok(true) => if waited@ >= policy.deadline@ {
                ConfirmState::Done(Err(ConfirmFailure::TimedOut { signature, waited }))
            } else {
                ConfirmState::Sleep
            },
        },
        (ConfirmState::AskStatusAgain, ConfirmEvent::Status(reply)) => match reply {
            Ok(Some(Ok(_))) => ConfirmState::Done(Ok(())),
            Ok(Some(Err(reason))) => ConfirmState::Done(
                Err(ConfirmFailure::Rejected { signature, reason }),
            ),
            Ok(None) => ConfirmState::Done(Err(ConfirmFailure::Expired { signature })),
            Err(source) => ConfirmState::Done(Err(ConfirmFailure::Rpc { signature, source })),
        },
        (ConfirmState::Sleep, ConfirmEvent::Woke) => ConfirmState::AskStatus,
        (other, _) => other,
    }
}

/// Decides what follows an event. A wait starts at [`ConfirmState::AskStatus`];
/// an event that was not asked for changes nothing.
pub fn confirm_transaction(
    state: ConfirmState,
    event: ConfirmEvent,
    signature: &Signature,
    policy: &ConfirmPolicy,
) -> (next: ConfirmState)
    ensures
        next == next_state(state, event, *signature, *policy),
{
    match (state, event) {
        (ConfirmState::AskStatus, ConfirmEvent::Status(reply)) => match reply {
            Ok(Some(Ok(_))) => ConfirmState::Done(Ok(())),
            Ok(Some(Err(reason))) => ConfirmState::Done(
                Err(ConfirmFailure::Rejected { signature: *signature, reason }),
            ),
            Ok(None) => ConfirmState::AskBlockhash,
            Err(source) => ConfirmState::Done(
                Err(ConfirmFailure::Rpc { signature: *signature, source }),
            ),
        },
        (ConfirmState::AskBlockhash, ConfirmEvent::Blockhash { valid, waited }) => match valid {
            Err(source) => ConfirmState::Done(
                Err(ConfirmFailure::Rpc { signature: *signature, source }),
            ),
            // The transaction may have confirmed between the two reads, so
            // expiry is not declared on the strength of the earlier one.
            Ok(false) => ConfirmState::AskStatusAgain,
            Ok(true) => {
                if waited.at_least(&policy.deadline) {
                    ConfirmState::Done(
                        Err(ConfirmFailure::TimedOut { signature: *signature, waited }),
                    )
                } else {
                    ConfirmState::Sleep
                }
            },
        },
        (ConfirmState::AskStatusAgain, ConfirmEvent::Status(reply)) => match reply {
            Ok(Some(Ok(_))) => ConfirmState::Done(Ok(())),
            Ok(Some(Err(reason))) => ConfirmState::Done(
                Err(ConfirmFailure::Rejected { signature: *signature, reason }),
            ),
            Ok(None) => ConfirmState::Done(Err(ConfirmFailure::Expired { signature: *signature })),
            Err(source) => ConfirmState::Done(
                Err(ConfirmFailure::Rpc { signature: *signature, source }),
            ),
        },
        (ConfirmState::Sleep, ConfirmEvent::Woke) => ConfirmState::AskStatus,
        (other, _) => other,
    }
}

/// The state after some events.
pub open spec fn state_after(
    events: Seq<ConfirmEvent>,
    signature: Signature,
    policy: ConfirmPolicy,
) -> ConfirmState
    decreases events.len(),
{
    if events.len() == 0 {
        ConfirmState::AskStatus
    } else {
        next_state(
            state_after(events.drop_last(), signature, policy),
            events.last(),
            signature,
            policy,
        )
    }
}

/// Whether a node reported that the transaction succeeded.
pub open spec fn reports_success(event: ConfirmEvent) -> bool {
    event matches ConfirmEvent::Status(Ok(Some(Ok(_))))
}

/// Whether a node reported that the blockhash can no longer be used.
pub open spec fn reports_expiry(event: ConfirmEvent) -> bool {
    event matches ConfirmEvent::Blockhash { valid: Ok(false), .. }
}

/// A transaction is never taken as confirmed that was not observed to succeed.
pub proof fn confirmation_needs_an_observed_success(
    events: Seq<ConfirmEvent>,
    signature: Signature,
    policy: ConfirmPolicy,
)
    requires
        state_after(events, signature, policy) == ConfirmState::Done(Ok(())),
    ensures
        exists|i: int| 0 <= i < events.len() && reports_success(#[trigger] events[i]),
    decreases events.len(),
{
    let before = state_after(events.drop_last(), signature, policy);
    if before == ConfirmState::Done(Ok(())) {
        confirmation_needs_an_observed_success(events.drop_last(), signature, policy);
        let i = choose|i: int|
            0 <= i < events.drop_last().len() && reports_success(#[trigger] events.drop_last()[i]);
        assert(reports_success(events[i]));
    } else {
        assert(reports_success(events[events.len() - 1]));
    }
}

/// A transaction is never taken as expired whose blockhash was not reported
/// unusable.
pub proof fn expiry_needs_a_dead_blockhash(
    events: Seq<ConfirmEvent>,
    signature: Signature,
    policy: ConfirmPolicy,
)
    requires
        state_after(events, signature, policy) is AskStatusAgain || state_after(
            events,
            signature,
            policy,
        ) == ConfirmState::Done(Err(ConfirmFailure::Expired { signature })),
    ensures
        exists|i: int| 0 <= i < events.len() && reports_expiry(#[trigger] events[i]),
    decreases events.len(),
{
    let before = state_after(events.drop_last(), signature, policy);
    if before is AskBlockhash {
        assert(reports_expiry(events[events.len() - 1]));
    } else {
        expiry_needs_a_dead_blockhash(events.drop_last(), signature, policy);
        let i = choose|i: int|
            0 <= i < events.drop_last().len() && reports_expiry(#[trigger] events.drop_last()[i]);
        assert(reports_expiry(events[i]));
    }
}

/// Once the blockhash is dead, or the deadline has passed, the wait ends with
/// the next answer it asks for: it never sleeps again.
pub proof fn the_wait_is_bounded(
    event: ConfirmEvent,
    signature: Signature,
    policy: ConfirmPolicy,
)
    ensures
        event is Status ==> next_state(ConfirmState::AskStatusAgain, event, signature, policy) is Done,
        event matches ConfirmEvent::Blockhash { waited, .. } && waited@ >= policy.deadline@
            ==> !(next_state(ConfirmState::AskBlockhash, event, signature, policy) is Sleep),
        reports_expiry(event) ==> next_state(ConfirmState::AskBlockhash, event, signature, policy)
            is AskStatusAgain,
{
}

/// An outcome that was reached stays.
pub proof fn an_outcome_is_final(
    outcome: Result<(), ConfirmFailure>,
    event: ConfirmEvent,
    signature: Signature,
    policy: ConfirmPolicy,
)
    ensures
        next_state(ConfirmState::Done(outcome), event, signature, policy) == ConfirmState::Done(
            outcome,
        ),
{
}

/// While the blockhash is good the wait goes on until the deadline and no
/// shorter: it sleeps exactly where the blockhash is valid and the deadline is
/// not reached, and gives up exactly where the blockhash is valid and it is. A
/// dead blockhash is looked into once more, and a failed question is reported as
/// such.
pub proof fn a_wait_goes_on_until_its_deadline(
    valid: Result<bool, SolanaRpcError>,
    waited: Duration,
    signature: Signature,
    policy: ConfirmPolicy,
)
    ensures
        ({
            let next = next_state(
                ConfirmState::AskBlockhash,
                ConfirmEvent::Blockhash { valid, waited },
                signature,
                policy,
            );
            let alive = valid == Ok::<bool, SolanaRpcError>(true);
            &&& next is Sleep <==> alive && waited@ < policy.deadline@
            &&& next == ConfirmState::Done(Err(ConfirmFailure::TimedOut { signature, waited })) <==>
                alive && waited@ >= policy.deadline@
            &&& next is AskStatusAgain <==> valid == Ok::<bool, SolanaRpcError>(false)
            &&& (valid matches Err(source) ==> next == ConfirmState::Done(
                Err(ConfirmFailure::Rpc { signature, source }),
            ))
            &&& next is Done <==> valid is Err || (alive && waited@ >= policy.deadline@)
        }),
{
}

/// Whether an event found the blockhash good after a wait of this length.
pub open spec fn found_alive(event: ConfirmEvent, waited: Duration) -> bool {
    event == (ConfirmEvent::Blockhash { valid: Ok(true), waited })
}

/// However a wait runs, it is given up as timed out only after a wait that
/// reached the deadline, and what is reported is that wait.
pub proof fn a_timeout_needs_the_whole_deadline(
    events: Seq<ConfirmEvent>,
    signature: Signature,
    policy: ConfirmPolicy,
    named: Signature,
    waited: Duration,
)
    requires
        state_after(events, signature, policy) == ConfirmState::Done(
            Err(ConfirmFailure::TimedOut { signature: named, waited }),
        ),
    ensures
        named == signature,
        waited@ >= policy.deadline@,
        exists|i: int| 0 <= i < events.len() && found_alive(#[trigger] events[i], waited),
    decreases events.len(),
{
    let earlier = events.drop_last();
    if state_after(earlier, signature, policy) is Done {
        a_timeout_needs_the_whole_deadline(earlier, signature, policy, named, waited);
        let i = choose|i: int| 0 <= i < earlier.len() && found_alive(#[trigger] earlier[i], waited);
        assert(found_alive(events[i], waited));
    } else {
        assert(found_alive(events[events.len() - 1], waited));
    }
}

/// A fate that the node reports is the outcome, whichever of the two questions
/// it answers; and while it reports none the wait goes on to the blockhash, or,
/// once that is dead, ends as expired.
pub proof fn a_reported_fate_is_the_outcome(
    state: ConfirmState,
    reply: StatusReply,
    signature: Signature,
    policy: ConfirmPolicy,
)
    requires
        state is AskStatus || state is AskStatusAgain,
    ensures
        ({
            let next = next_state(state, ConfirmEvent::Status(reply), signature, policy);
            &&& (next == ConfirmState::Done(Ok(())) <==> reply matches Ok(Some(Ok(_))))
            &&& (reply matches Ok(Some(Err(reason))) ==> next == ConfirmState::Done(
                Err(ConfirmFailure::Rejected { signature, reason }),
            ))
            &&& (reply matches Err(source) ==> next == ConfirmState::Done(
                Err(ConfirmFailure::Rpc { signature, source }),
            ))
            &&& (reply matches Ok(None) && state is AskStatus ==> next is AskBlockhash)
            &&& (reply matches Ok(None) && state is AskStatusAgain ==> next == ConfirmState::Done(
                Err(ConfirmFailure::Expired { signature }),
            ))
        }),
{
}

/// After sleeping the wait asks for the status again, and no event that was not
/// asked for changes anything.
pub proof fn a_wait_takes_one_answer_at_a_time(
    state: ConfirmState,
    event: ConfirmEvent,
    signature: Signature,
    policy: ConfirmPolicy,
)
    ensures
        next_state(ConfirmState::Sleep, ConfirmEvent::Woke, signature, policy) is AskStatus,
        next_state(state, event, signature, policy) != state ==> (state is AskStatus
            && event is Status) || (state is AskStatusAgain && event is Status) || (
        state is AskBlockhash && event is Blockhash) || (state is Sleep && event is Woke),
{
}

/// A wait for a transaction that is not seen yet, whose blockhash is good and
/// whose deadline is not reached, comes back to asking for the status.
pub proof fn an_unseen_transaction_is_asked_for_again(
    events: Seq<ConfirmEvent>,
    waited: Duration,
    signature: Signature,
    policy: ConfirmPolicy,
)
    requires
        state_after(events, signature, policy) is AskStatus,
        waited@ < policy.deadline@,
    ensures
        state_after(
            events.push(ConfirmEvent::Status(Ok(None))).push(
                ConfirmEvent::Blockhash { valid: Ok(true), waited },
            ).push(ConfirmEvent::Woke),
            signature,
            policy,
        ) is AskStatus,
{
    let one = events.push(ConfirmEvent::Status(Ok(None)));
    let two = one.push(ConfirmEvent::Blockhash { valid: Ok(true), waited });
    let three = two.push(ConfirmEvent::Woke);
    assert(one.drop_last() =~= events);
    assert(two.drop_last() =~= one);
    assert(three.drop_last() =~= two);
    assert(state_after(one, signature, policy) is AskBlockhash);
    assert(state_after(two, signature, policy) is Sleep);
}

/// Whatever an operator reads of a transaction that was not confirmed names the
/// transaction, and the reason where there is one.
pub proof fn an_unconfirmed_transaction_is_named(failure: ConfirmFailure)
    ensures
        shows(failure.text(), base58_text(failure.about().bytes@)),
        failure matches ConfirmFailure::Rejected { reason, .. } ==> shows(failure.text(), reason@),
        failure matches ConfirmFailure::TimedOut { waited, .. } ==> shows(
            failure.text(),
            duration_text(waited@),
        ),
        failure matches ConfirmFailure::Rpc { source, .. } ==> shows(
            failure.text(),
            source.text(),
        ),
{
    let name = base58_text(failure.about().bytes@);
    match failure {
        ConfirmFailure::Rejected { reason, .. } => {
            lemma_shows_both("transaction "@, name, " was rejected on chain: "@, reason@);
        },
        ConfirmFailure::Expired { .. } => {
            lemma_shows_within(
                "transaction "@,
                name,
                " expired before it confirmed (its blockhash is no longer valid); nothing it would have done has taken effect"@,
            );
        },
        ConfirmFailure::TimedOut { waited, .. } => {
            let within = " was neither confirmed nor expired within "@;
            let advice =
                "; its outcome is UNKNOWN — read the on-chain state back before retrying"@;
            let span = duration_text(waited@);
            lemma_shows_both("transaction "@, name, within, span);
            lemma_shows_going_on("transaction "@ + name + within + span, name, advice);
            lemma_shows_going_on("transaction "@ + name + within + span, span, advice);
        },
        ConfirmFailure::Rpc { source, .. } => {
            lemma_shows_both(
                "could not determine the fate of transaction "@,
                name,
                ": "@,
                source.text(),
            );
        },
    }
}

} // verus!
