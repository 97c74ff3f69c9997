//! How a governance command reaches the chain.
//!
//! What the chain has pending is looked at first. A command that the federation
//! has to approve is then put to its members, and submitted only together with
//! the signatures of enough of them.

use crate::p2p::aggregation::{distinct, Round};
use crate::solana::confirm::Signature;
use crate::solana::pubkey::Pubkey;
use crate::text::{
    decimal, lemma_shows_at_the_ends, lemma_shows_both, lemma_shows_going_on, push_decimal, shows,
};
use vstd::prelude::*;

verus! {

/// What an operator asks for.
#[derive(Debug, Clone, Copy, PartialEq, Eq, Structural)]
pub enum GovernanceCommand {
    /// Queue an action.
    Propose,
    /// Cancel the action that is queued.
    Cancel,
    /// Carry out the action that is queued. Anyone may: the approval of the
    /// proposal was the authorisation.
    Execute,
}

impl GovernanceCommand {
    /// Whether the federation has to approve the command.
    pub open spec fn needs_approval(self) -> bool {
        !(self is Execute)
    }
}

/// Why a command was not submitted.
#[derive(Debug, PartialEq, Eq)]
pub enum SubmissionRefusal {
    /// What is pending on chain stands in the way.
    NotNow { command: GovernanceCommand, why: String },
    TooFewApprovals { have: usize, need: u8 },
}

impl SubmissionRefusal {
    /// What the operator reads.
    pub open spec fn text(self) -> Seq<char> {
        match self {
            SubmissionRefusal::NotNow { command, why } => match command {
                GovernanceCommand::Propose => why@ + " (`glc-admin show-pending`)"@,
                GovernanceCommand::Cancel => why@ + " — nothing to cancel"@,
                GovernanceCommand::Execute => why@,
            },
            SubmissionRefusal::TooFewApprovals { have, need } => "collected "@ + decimal(
                have as nat,
            ) + " of "@ + decimal(need as nat)
                + " required approvals. Each remaining operator must run the matching `glc-admin approve-*` command."@,
        }
    }

    /// What the operator reads.
    pub fn message(&self) -> (m: String)
        ensures
            m@ == self.text(),
    {
        match self {
            SubmissionRefusal::NotNow { command, why } => {
                let mut m: String = why.clone();
                match command {
                    GovernanceCommand::Propose => {
                        m.append(" (`glc-admin show-pending`)");
                    },
                    GovernanceCommand::Cancel => {
                        m.append(" — nothing to cancel");
                    },
                    GovernanceCommand::Execute => {},
                }
                m
            },
            SubmissionRefusal::TooFewApprovals { have, need } => {
                let mut m: String = String::from_str("collected ");
                push_decimal(&mut m, *have as u64);
                m.append(" of ");
                push_decimal(&mut m, *need as u64);
                m.append(
                    " required approvals. Each remaining operator must run the matching `glc-admin approve-*` command.",
                );
                m
            },
        }
    }
}

/// What submitting a command does next.
#[derive(Debug, PartialEq, Eq)]
pub enum SubmissionStep {
    /// Hold the command against what is pending on chain.
    Preflight(GovernanceCommand),
    /// Ask the federation's members for their signatures.
    Collect(GovernanceCommand),
    /// Submit the command, behind a proof of these signatures where the
    /// federation had to approve it.
    Submit(Option<Vec<(Pubkey, Signature)>>),
    Refused(SubmissionRefusal),
}

/// What came back.
#[derive(Debug, PartialEq, Eq)]
pub enum SubmissionEvent {
    /// Nothing stands in the way, or why something does.
    Preflighted(Result<(), String>),
    /// What the members answered, and how many of them have to approve.
    Collected { round: Round, threshold: u8 },
}

/// What follows an event. An event that was not asked for changes nothing.
pub open spec fn submission(step: SubmissionStep, event: SubmissionEvent) -> SubmissionStep {
    match (step, event) {
        (SubmissionStep::Preflight(command), SubmissionEvent::Preflighted(Err(why))) =>
            SubmissionStep::Refused(SubmissionRefusal::NotNow { command, why }),
        (SubmissionStep::Preflight(command), SubmissionEvent::Preflighted(Ok(_))) =>
            if command.needs_approval() {
                SubmissionStep::Collect(command)
            } else {
                SubmissionStep::Submit(None)
            },
        (SubmissionStep::Collect(_), SubmissionEvent::Collected { round, threshold }) =>
            if distinct(round@.signers()) < threshold {
                SubmissionStep::Refused(
                    SubmissionRefusal::TooFewApprovals {
                        have: distinct(round@.signers()) as usize,
                        need: threshold,
                    },
                )
            } else {
                SubmissionStep::Submit(Some(round.signatures))
            },
        _ => step,
    }
}

/// Decides what follows an event.
pub fn collect_governance(step: SubmissionStep, event: SubmissionEvent) -> (next: SubmissionStep)
    ensures
        next == submission(step, event),
{
    match (step, event) {
        (SubmissionStep::Preflight(command), SubmissionEvent::Preflighted(verdict)) => match verdict {
            Err(why) => SubmissionStep::Refused(SubmissionRefusal::NotNow { command, why }),
            Ok(_) => match command {
                GovernanceCommand::Execute => SubmissionStep::Submit(None),
                _ => SubmissionStep::Collect(command),
            },
        },
        (SubmissionStep::Collect(_), SubmissionEvent::Collected { round, threshold }) => {
            let have: usize = round.unique_signers();
            if have < threshold as usize {
                SubmissionStep::Refused(
                    SubmissionRefusal::TooFewApprovals { have, need: threshold },
                )
            } else {
                SubmissionStep::Submit(Some(round.signatures))
            }
        },
        (other, _) => other,
    }
}

/// Where a command stands after the given events.
pub open spec fn submission_after(
    command: GovernanceCommand,
    events: Seq<SubmissionEvent>,
) -> SubmissionStep
    decreases events.len(),
{
    if events.len() == 0 {
        SubmissionStep::Preflight(command)
    } else {
        submission(submission_after(command, events.drop_last()), events.last())
    }
}

/// Whether nothing stood in the way.
pub open spec fn was_clear(event: SubmissionEvent) -> bool {
    event matches SubmissionEvent::Preflighted(Ok(_))
}

/// Whether a round brought these signatures, and they are enough.
pub open spec fn approved_by(event: SubmissionEvent, signatures: Vec<(Pubkey, Signature)>) -> bool {
    event matches SubmissionEvent::Collected { round, threshold } && round.signatures == signatures
        && distinct(round@.signers()) >= threshold
}

/// A command is submitted only where nothing pending stood in its way. One that
/// the federation has to approve goes out with the signatures of a round in
/// which enough different members signed, and with those alone.
pub proof fn only_an_approved_command_is_submitted(
    command: GovernanceCommand,
    events: Seq<SubmissionEvent>,
)
    ensures
        submission_after(command, events) matches SubmissionStep::Preflight(c) ==> c == command,
        submission_after(command, events) matches SubmissionStep::Collect(c) ==> c == command
            && command.needs_approval() && exists|i: int|
            0 <= i < events.len() && #[trigger] was_clear(events[i]),
        submission_after(command, events) matches SubmissionStep::Submit(proof_of) ==> {
            &&& exists|i: int| 0 <= i < events.len() && #[trigger] was_clear(events[i])
            &&& proof_of is None <==> !command.needs_approval()
            &&& proof_of matches Some(signatures) ==> exists|i: int|
                0 <= i < events.len() && #[trigger] approved_by(events[i], signatures)
        },
    decreases events.len(),
{
    if events.len() > 0 {
        let earlier = events.drop_last();
        let last = events.len() - 1;
        only_an_approved_command_is_submitted(command, earlier);
        assert(events[last] == events.last());
        assert(was_clear(events[last]) == was_clear(events.last()));
        if exists|i: int| 0 <= i < earlier.len() && #[trigger] was_clear(earlier[i]) {
            let i = choose|i: int| 0 <= i < earlier.len() && #[trigger] was_clear(earlier[i]);
            assert(was_clear(events[i]));
        }
        if let SubmissionStep::Submit(Some(signatures)) = submission_after(command, events) {
            if submission_after(command, earlier) is Submit {
                let i = choose|i: int|
                    0 <= i < earlier.len() && #[trigger] approved_by(earlier[i], signatures);
                assert(approved_by(events[i], signatures));
            } else {
                assert(approved_by(events[last], signatures));
            }
        }
    }
}

/// Every command but an execution needs the federation's approval.
pub proof fn only_an_execution_needs_no_approval(command: GovernanceCommand)
    ensures
        command.needs_approval() <==> command == GovernanceCommand::Propose || command
            == GovernanceCommand::Cancel,
{
}

/// A command that something pending stands against is refused with the reason;
/// one that nothing does is put to the members, or submitted at once where it
/// needs no approval.
pub proof fn a_clear_command_goes_on(command: GovernanceCommand, verdict: Result<(), String>)
    ensures
        ({
            let next = submission(
                SubmissionStep::Preflight(command),
                SubmissionEvent::Preflighted(verdict),
            );
            &&& next == SubmissionStep::Collect(command) <==> verdict is Ok && command
                != GovernanceCommand::Execute
            &&& next == SubmissionStep::Submit(None) <==> verdict is Ok && command
                == GovernanceCommand::Execute
            &&& (verdict matches Err(why) ==> next == SubmissionStep::Refused(
                SubmissionRefusal::NotNow { command, why },
            ))
        }),
{
}

/// A command that enough different members signed is submitted with exactly
/// their signatures, and one that fewer signed is refused with both numbers.
pub proof fn a_command_that_enough_members_signed_is_submitted(
    command: GovernanceCommand,
    round: Round,
    threshold: u8,
)
    requires
        round.signatures@.len() <= usize::MAX,
    ensures
        ({
            let signers = round@.signers().to_set().len();
            let next = submission(
                SubmissionStep::Collect(command),
                SubmissionEvent::Collected { round, threshold },
            );
            &&& next == SubmissionStep::Submit(Some(round.signatures)) <==> signers >= threshold
            &&& next is Refused <==> signers < threshold
            &&& (next matches SubmissionStep::Refused(
                SubmissionRefusal::TooFewApprovals { have, need },
            ) ==> have == signers && need == threshold)
            &&& (next matches SubmissionStep::Refused(why) ==> why is TooFewApprovals)
        }),
{
    crate::p2p::aggregation::every_signer_counts_once(round@.signers());
}

/// A command that was submitted or refused stays so, and nothing changes on an
/// event that was not asked for.
pub proof fn a_submission_takes_one_answer_at_a_time(step: SubmissionStep, event: SubmissionEvent)
    ensures
        step is Submit || step is Refused ==> submission(step, event) == step,
        submission(step, event) != step ==> (step is Preflight && event is Preflighted) || (
        step is Collect && event is Collected),
{
}

/// Whoever is refused for want of approvals reads how many there are and how
/// many are needed, and otherwise reads why it is not the time.
pub proof fn a_refused_command_says_what_is_missing(
    command: GovernanceCommand,
    why: String,
    have: usize,
    need: u8,
)
    ensures
        shows(SubmissionRefusal::NotNow { command, why }.text(), why@),
        shows(SubmissionRefusal::TooFewApprovals { have, need }.text(), decimal(have as nat)),
        shows(SubmissionRefusal::TooFewApprovals { have, need }.text(), decimal(need as nat)),
{
    match command {
        GovernanceCommand::Propose => {
            lemma_shows_at_the_ends(why@, " (`glc-admin show-pending`)"@);
        },
        GovernanceCommand::Cancel => {
            lemma_shows_at_the_ends(why@, " — nothing to cancel"@);
        },
        GovernanceCommand::Execute => {
            lemma_shows_at_the_ends(why@, Seq::empty());
            assert(why@ + Seq::empty() =~= why@);
        },
    }
    let advice =
        " required approvals. Each remaining operator must run the matching `glc-admin approve-*` command."@;
    let h = decimal(have as nat);
    let n = decimal(need as nat);
    lemma_shows_both("collected "@, h, " of "@, n);
    lemma_shows_going_on("collected "@ + h + " of "@ + n, h, advice);
    lemma_shows_going_on("collected "@ + h + " of "@ + n, n, advice);
}

} // verus!
