//! Building a payout: funds, a reservation, a transaction, its verification,
//! and the record of it. Nothing is signed here.

use crate::glc::hex::hex_text;
use crate::glc::rpc::RpcError;
use crate::glc::withdrawal_db::{
    copy_utxos, total_value, NewPayout, PayoutIntent, VaultUtxo, WithdrawalRow, WithdrawalState,
};
use crate::withdrawal::builder::PayoutPlan;
use crate::withdrawal::coin::{
    fee, most_inputs_priced, no_single_output, prefix_funds, select, selected,
    selection_conserves_value, selection_spends_what_was_offered, some_prefix_funds, tx_size,
    what_is_not_owed_goes_back_to_the_vault, Selection,
};
use crate::withdrawal::config::WithdrawalConfig;
use crate::withdrawal::executor::{
    classified, classify, outpoints, outpoints_of, ExecutorError, Note, Transition,
    WithdrawalExecutor, WithdrawalTickReport,
};
use crate::withdrawal::sweep::p2sh_script;
use vstd::prelude::*;

verus! {

/// What a node is asked to construct, and what it has to come out as.
#[derive(Debug, PartialEq, Eq)]
pub struct Construction {
    pub inputs: Vec<(String, i64)>,
    /// Addresses and amounts.
    pub outputs: Vec<(String, u64)>,
    pub plan: PayoutPlan,
}

/// A transaction that a node constructed.
#[derive(Debug, PartialEq, Eq)]
pub struct Constructed {
    pub unsigned_tx_hex: String,
    /// Whether it is what the plan says, or why not.
    pub verified: Result<(), String>,
}

/// The canonical bytes of an intent, and what they are committed to by.
#[derive(Debug, PartialEq, Eq)]
pub struct Committed {
    pub intent: Vec<u8>,
    pub commitment: [u8; 32],
    pub now: i64,
}

/// What building a payout does next.
#[derive(Debug, PartialEq, Eq)]
pub enum BuildStep {
    /// Look for a payout row, and list the spendable outputs.
    Look,
    /// A payout row exists already: take it up as it is.
    Adopt(Transition),
    /// The funds do not suffice. Record it, unless it is recorded.
    AwaitFunds(Option<Transition>),
    /// Record that there are funds, where that is news; then reserve the
    /// inputs.
    Reserve { resumed: Option<Transition>, selection: Selection },
    /// Somebody else reserved an input first; try again in the next pass.
    LostReservation,
    /// Record that the payout is being built; then have the node construct
    /// and decode it, and hold it against the plan.
    Construct { building: Transition, selection: Selection, construction: Construction },
    /// Designate the signers by the withdrawal's index, and hold them against
    /// the vault.
    Designate { selection: Selection, unsigned_tx_hex: String },
    /// Encode what the signers have to agree on.
    Commit { intent: PayoutIntent, unsigned_tx_hex: String },
    /// Record the payout; then record that it can be signed.
    Record { payout: NewPayout, signing: Transition },
    /// Stop this withdrawal until a person has looked at it.
    Halt(Transition),
    Fail(ExecutorError),
}

/// What came back.
#[derive(Debug, PartialEq, Eq)]
pub enum BuildEvent {
    Found { has_payout: bool, candidates: Vec<VaultUtxo> },
    Reserved(bool),
    Constructed(Result<Constructed, RpcError>),
    /// The positions of the signers, or why they cannot sign for the vault.
    Designated(Result<Vec<u8>, String>),
    Committed(Committed),
}

/// The move to a state that needs no explanation.
pub open spec fn moves_to(state: WithdrawalState) -> Transition {
    Transition { state, note: None }
}

/// What the node is asked to pay: the burned amount to the user, and what is
/// left to the vault.
pub open spec fn payments(
    executor: WithdrawalExecutor,
    w: WithdrawalRow,
    change: u64,
) -> Seq<(String, u64)> {
    let payout = seq![(w.glc_address, w.amount_atomic)];
    if change > 0 {
        payout.push((executor.config.change_address, change))
    } else {
        payout
    }
}

/// Whether a construction spends a selection and pays a withdrawal.
pub open spec fn constructs(
    executor: WithdrawalExecutor,
    w: WithdrawalRow,
    s: Selection,
    c: Construction,
) -> bool {
    &&& c.inputs@ == outpoints_of(s.inputs@)
    &&& c.outputs@ == payments(executor, w, s.change_atomic)
    &&& c.plan.dest_hash160 == w.glc_address_hash160
    &&& c.plan.payout_atomic == w.amount_atomic
    &&& match c.plan.change_script_hex {
        Some(script) => s.change_atomic > 0 && script@ == hex_text(
            p2sh_script(executor.config.vault.script_hash160@),
        ),
        None => s.change_atomic == 0,
    }
    &&& c.plan.change_atomic == s.change_atomic
    &&& c.plan.fee_atomic == s.fee_atomic
    &&& c.plan.inputs@ == s.inputs@
}

/// What a payout row says of the money it moves.
#[derive(Debug, Clone, Copy, PartialEq, Eq)]
pub struct Amounts {
    pub payout_atomic: u64,
    pub fee_atomic: u64,
    pub change_atomic: u64,
}

/// Whether an intent is that of a payout of a withdrawal from the configured
/// vault, by the given signers.
pub open spec fn intends(
    config: WithdrawalConfig,
    index: i64,
    w: WithdrawalRow,
    amounts: Amounts,
    quorum_attempt: int,
    quorum: Vec<u8>,
    inputs: Vec<VaultUtxo>,
    i: PayoutIntent,
) -> bool {
    &&& i.protocol_version == w.protocol_version
    &&& i.withdrawal_index == index
    &&& i.vault_script_hash == config.vault.script_hash160
    &&& i.dest_hash160 == w.glc_address_hash160
    &&& i.payout_atomic == amounts.payout_atomic
    &&& i.fee_atomic == amounts.fee_atomic
    &&& i.change_atomic == amounts.change_atomic
    &&& i.change_hash160@ == if amounts.change_atomic > 0 {
        config.change_hash160@
    } else {
        Seq::new(20, |k: int| 0u8)
    }
    &&& i.quorum_attempt == quorum_attempt
    &&& i.quorum_indices == quorum
    &&& i.inputs == inputs
}

/// The intent of a payout of a withdrawal from the configured vault, by the
/// given signers.
pub fn payout_intent(
    config: &WithdrawalConfig,
    index: i64,
    w: &WithdrawalRow,
    amounts: Amounts,
    quorum_attempt: u32,
    quorum: Vec<u8>,
    inputs: Vec<VaultUtxo>,
) -> (intent: PayoutIntent)
    ensures
        intends(*config, index, *w, amounts, quorum_attempt as int, quorum, inputs, intent),
{
    let none: [u8; 20] = [0u8; 20];
    assert(none@ =~= Seq::new(20, |k: int| 0u8));
    PayoutIntent {
        protocol_version: w.protocol_version,
        withdrawal_index: index,
        vault_script_hash: config.vault.script_hash160,
        dest_hash160: w.glc_address_hash160,
        payout_atomic: amounts.payout_atomic,
        fee_atomic: amounts.fee_atomic,
        change_atomic: amounts.change_atomic,
        change_hash160: if amounts.change_atomic > 0 {
            config.change_hash160
        } else {
            none
        },
        quorum_attempt,
        quorum_indices: quorum,
        inputs,
    }
}

/// Designating other signers changes nothing of an intent but who signs: the
/// same inputs pay the same amounts to the same places.
pub proof fn a_reassignment_changes_only_the_signers(
    config: WithdrawalConfig,
    index: i64,
    w: WithdrawalRow,
    amounts: Amounts,
    inputs: Vec<VaultUtxo>,
    attempt: int,
    quorum: Vec<u8>,
    before: PayoutIntent,
    later_attempt: int,
    later_quorum: Vec<u8>,
    after: PayoutIntent,
)
    requires
        intends(config, index, w, amounts, attempt, quorum, inputs, before),
        intends(config, index, w, amounts, later_attempt, later_quorum, inputs, after),
    ensures
        after.protocol_version == before.protocol_version,
        after.withdrawal_index == before.withdrawal_index,
        after.vault_script_hash == before.vault_script_hash,
        after.dest_hash160 == before.dest_hash160,
        after.payout_atomic == before.payout_atomic,
        after.fee_atomic == before.fee_atomic,
        after.change_atomic == before.change_atomic,
        after.change_hash160@ == before.change_hash160@,
        after.inputs == before.inputs,
{
}

/// What a selection for a withdrawal moves.
pub open spec fn amounts_of(w: WithdrawalRow, s: Selection) -> Amounts {
    Amounts {
        payout_atomic: w.amount_atomic,
        fee_atomic: s.fee_atomic,
        change_atomic: s.change_atomic,
    }
}

/// Whether a payout records an intent.
pub open spec fn records(
    executor: WithdrawalExecutor,
    i: PayoutIntent,
    unsigned_tx_hex: String,
    c: Committed,
    p: NewPayout,
) -> bool {
    &&& p.withdrawal_index == i.withdrawal_index
    &&& p.vault_script_hash == i.vault_script_hash
    &&& p.quorum_indices == i.quorum_indices
    &&& p.quorum_attempt == i.quorum_attempt
    &&& p.commitment_hash == c.commitment
    &&& p.intent_bytes == c.intent
    &&& p.fee_atomic == i.fee_atomic
    &&& p.payout_atomic == i.payout_atomic
    &&& p.change_atomic == i.change_atomic
    &&& p.change_address == if i.change_atomic > 0 {
        Some(executor.config.change_address)
    } else {
        None
    }
    &&& p.unsigned_tx_hex == unsigned_tx_hex
    &&& p.inputs == i.inputs
    &&& p.built_at == c.now
}

impl WithdrawalExecutor {
    /// Whether a selection funds a withdrawal.
    pub open spec fn funds(self, w: WithdrawalRow, candidates: Seq<VaultUtxo>, s: Selection) -> bool {
        selected(
            candidates,
            w.amount_atomic as nat,
            self.config.fee_rate_per_kb as nat,
            self.config.dust_threshold_atomic as nat,
            self.config.max_inputs_per_payout as nat,
            self.config.vault.input_size(),
            s,
        )
    }

    /// Whether nothing spendable funds a withdrawal.
    pub open spec fn nothing_funds(self, w: WithdrawalRow, candidates: Seq<VaultUtxo>) -> bool {
        &&& no_single_output(
            candidates,
            w.amount_atomic as nat,
            self.config.fee_rate_per_kb as nat,
            self.config.vault.input_size(),
        )
        &&& !some_prefix_funds(
            candidates,
            w.amount_atomic as nat,
            self.config.fee_rate_per_kb as nat,
            self.config.max_inputs_per_payout as nat,
            self.config.vault.input_size(),
        )
    }

    /// Whether the spendable outputs can be added up and priced.
    pub open spec fn can_price(self, candidates: Seq<VaultUtxo>) -> bool {
        &&& self.config.vault.sized()
        &&& total_value(candidates) <= u64::MAX
        &&& tx_size(
            most_inputs_priced(candidates.len(), self.config.max_inputs_per_payout as nat),
            2,
            self.config.vault.input_size(),
        ) <= u64::MAX
    }

    /// Whether `next` follows an event.
    pub open spec fn builds(
        self,
        w: WithdrawalRow,
        step: BuildStep,
        event: BuildEvent,
        next: BuildStep,
    ) -> bool {
        match (step, event) {
            (BuildStep::Look, BuildEvent::Found { has_payout, candidates }) => if has_payout {
                next == BuildStep::Adopt(moves_to(WithdrawalState::Signing))
            } else {
                match next {
                    BuildStep::AwaitFunds(t) => {
                        &&& self.nothing_funds(w, candidates@)
                        &&& t == if w.state == WithdrawalState::AwaitingFunds {
                            None
                        } else {
                            Some(
                                Transition {
                                    state: WithdrawalState::AwaitingFunds,
                                    note: Some(Note::InsufficientFunds),
                                },
                            )
                        }
                    },
                    BuildStep::Reserve { resumed, selection } => {
                        &&& self.funds(w, candidates@, selection)
                        &&& resumed == if w.state == WithdrawalState::AwaitingFunds {
                            Some(moves_to(WithdrawalState::Validated))
                        } else {
                            None
                        }
                    },
                    _ => false,
                }
            },
            (BuildStep::Reserve { selection: s, .. }, BuildEvent::Reserved(won)) => if won {
                next matches BuildStep::Construct { building, selection, construction } && building
                    == moves_to(WithdrawalState::Building) && selection == s && constructs(
                    self,
                    w,
                    s,
                    construction,
                )
            } else {
                next == BuildStep::LostReservation
            },
            (
                BuildStep::Construct { selection, .. },
                BuildEvent::Constructed(made),
            ) => match made {
                Err(e) => next == BuildStep::Fail(classified(e)),
                Ok(tx) => match tx.verified {
                    Err(why) => next == BuildStep::Halt(
                        Transition {
                            state: WithdrawalState::IntegrityHalted,
                            note: Some(Note::OutputVerification(why)),
                        },
                    ),
                    Ok(_) => next == (BuildStep::Designate {
                        selection,
                        unsigned_tx_hex: tx.unsigned_tx_hex,
                    }),
                },
            },
            (
                BuildStep::Designate { selection, unsigned_tx_hex },
                BuildEvent::Designated(designated),
            ) => match designated {
                Err(why) => next == BuildStep::Fail(ExecutorError::Rpc(RpcError::Malformed(why))),
                Ok(quorum) => next matches BuildStep::Commit { intent, unsigned_tx_hex: hex }
                    && hex == unsigned_tx_hex && intends(
                    self.config,
                    w.withdrawal_index,
                    w,
                    amounts_of(w, selection),
                    0,
                    quorum,
                    selection.inputs,
                    intent,
                ),
            },
            (
                BuildStep::Commit { intent, unsigned_tx_hex },
                BuildEvent::Committed(committed),
            ) => next matches BuildStep::Record { payout, signing } && records(
                self,
                intent,
                unsigned_tx_hex,
                committed,
                payout,
            ) && signing == moves_to(WithdrawalState::Signing),
            _ => next == step,
        }
    }

    /// Decides what follows an event. Building starts at [`BuildStep::Look`];
    /// an event that was not asked for changes nothing.
    pub fn build(&self, w: &WithdrawalRow, step: BuildStep, event: BuildEvent) -> (next: BuildStep)
        requires
            event matches BuildEvent::Found { has_payout, candidates } ==> has_payout
                || self.can_price(candidates@),
        ensures
            self.builds(*w, step, event, next),
    {
        match (step, event) {
            (BuildStep::Look, BuildEvent::Found { has_payout, candidates }) => {
                if has_payout {
                    return BuildStep::Adopt(
                        Transition { state: WithdrawalState::Signing, note: None },
                    );
                }
                match select(
                    candidates.as_slice(),
                    w.amount_atomic,
                    self.config.fee_rate_per_kb,
                    self.config.dust_threshold_atomic,
                    self.config.max_inputs_per_payout,
                    self.vault_input_bytes(),
                ) {
                    Ok(selection) => {
                        let resumed: Option<Transition> = if w.state
                            == WithdrawalState::AwaitingFunds {
                            Some(Transition { state: WithdrawalState::Validated, note: None })
                        } else {
                            None
                        };
                        BuildStep::Reserve { resumed, selection }
                    },
                    Err(_) => {
                        if w.state == WithdrawalState::AwaitingFunds {
                            BuildStep::AwaitFunds(None)
                        } else {
                            BuildStep::AwaitFunds(
                                Some(
                                    Transition {
                                        state: WithdrawalState::AwaitingFunds,
                                        note: Some(Note::InsufficientFunds),
                                    },
                                ),
                            )
                        }
                    },
                }
            },
            (BuildStep::Reserve { selection, resumed: _ }, BuildEvent::Reserved(won)) => {
                if !won {
                    return BuildStep::LostReservation;
                }
                let construction: Construction = self.construct(w, &selection);
                BuildStep::Construct {
                    building: Transition { state: WithdrawalState::Building, note: None },
                    selection,
                    construction,
                }
            },
            (
                BuildStep::Construct { selection, building: _, construction: _ },
                BuildEvent::Constructed(made),
            ) => match made {
                Err(e) => BuildStep::Fail(classify(e)),
                Ok(tx) => match tx.verified {
                    Err(why) => BuildStep::Halt(
                        Transition {
                            state: WithdrawalState::IntegrityHalted,
                            note: Some(Note::OutputVerification(why)),
                        },
                    ),
                    Ok(_) => BuildStep::Designate {
                        selection,
                        unsigned_tx_hex: tx.unsigned_tx_hex,
                    },
                },
            },
            (
                BuildStep::Designate { selection, unsigned_tx_hex },
                BuildEvent::Designated(designated),
            ) => match designated {
                Err(why) => BuildStep::Fail(ExecutorError::Rpc(RpcError::Malformed(why))),
                Ok(quorum) => BuildStep::Commit {
                    intent: payout_intent(
                        &self.config,
                        w.withdrawal_index,
                        w,
                        Amounts {
                            payout_atomic: w.amount_atomic,
                            fee_atomic: selection.fee_atomic,
                            change_atomic: selection.change_atomic,
                        },
                        0,
                        quorum,
                        selection.inputs,
                    ),
                    unsigned_tx_hex,
                },
            },
            (BuildStep::Commit { intent, unsigned_tx_hex }, BuildEvent::Committed(committed)) => {
                let change_address: Option<String> = if intent.change_atomic > 0 {
                    Some(self.config.change_address.clone())
                } else {
                    None
                };
                BuildStep::Record {
                    payout: NewPayout {
                        withdrawal_index: intent.withdrawal_index,
                        vault_script_hash: intent.vault_script_hash,
                        quorum_indices: intent.quorum_indices,
                        quorum_attempt: intent.quorum_attempt,
                        commitment_hash: committed.commitment,
                        intent_bytes: committed.intent,
                        fee_atomic: intent.fee_atomic,
                        payout_atomic: intent.payout_atomic,
                        change_atomic: intent.change_atomic,
                        change_address,
                        unsigned_tx_hex,
                        inputs: intent.inputs,
                        built_at: committed.now,
                    },
                    signing: Transition { state: WithdrawalState::Signing, note: None },
                }
            },
            (other, _) => other,
        }
    }

    /// What the node is asked to construct for a selection.
    fn construct(&self, w: &WithdrawalRow, selection: &Selection) -> (c: Construction)
        ensures
            constructs(*self, *w, *selection, c),
    {
        let mut outputs: Vec<(String, u64)> = Vec::new();
        outputs.push((w.glc_address.clone(), w.amount_atomic));
        let mut change_script_hex: Option<String> = None;
        if selection.change_atomic > 0 {
            outputs.push((self.config.change_address.clone(), selection.change_atomic));
            change_script_hex = Some(self.config.vault.script_pubkey_hex());
        }
        assert(outputs@ =~= payments(*self, *w, selection.change_atomic));
        Construction {
            inputs: outpoints(selection.inputs.as_slice()),
            outputs,
            plan: PayoutPlan {
                dest_hash160: w.glc_address_hash160,
                payout_atomic: w.amount_atomic,
                change_script_hex,
                change_atomic: selection.change_atomic,
                fee_atomic: selection.fee_atomic,
                inputs: copy_utxos(selection.inputs.as_slice()),
            },
        }
    }
}

impl BuildStep {
    /// The report after building came to this step.
    pub open spec fn counted(self, report: WithdrawalTickReport) -> WithdrawalTickReport {
        match self {
            BuildStep::AwaitFunds(_) | BuildStep::LostReservation => WithdrawalTickReport {
                awaiting_funds: (report.awaiting_funds + 1) as u32,
                ..report
            },
            BuildStep::Record { .. } => WithdrawalTickReport {
                built: (report.built + 1) as u32,
                ..report
            },
            BuildStep::Halt(_) => WithdrawalTickReport {
                halted: (report.halted + 1) as u32,
                ..report
            },
            _ => report,
        }
    }

    /// Counts a build that came to this step.
    pub fn count(&self, report: &mut WithdrawalTickReport)
        requires
            old(report).has_room(),
        ensures
            *final(report) == self.counted(*old(report)),
    {
        match self {
            BuildStep::AwaitFunds(_) | BuildStep::LostReservation => {
                report.awaiting_funds = report.awaiting_funds + 1;
            },
            BuildStep::Record { .. } => {
                report.built = report.built + 1;
            },
            BuildStep::Halt(_) => {
                report.halted = report.halted + 1;
            },
            _ => {},
        }
    }
}

/// A build from its start: each step follows the one before it.
pub open spec fn is_build(
    executor: WithdrawalExecutor,
    w: WithdrawalRow,
    steps: Seq<BuildStep>,
    events: Seq<BuildEvent>,
) -> bool {
    &&& steps.len() == events.len() + 1
    &&& steps[0] is Look
    &&& forall|k: int|
        0 <= k < events.len() ==> executor.builds(w, #[trigger] steps[k], events[k], steps[k + 1])
}

/// Whether a node's transaction was verified against the plan.
pub open spec fn was_verified(events: Seq<BuildEvent>, unsigned_tx_hex: String) -> bool {
    exists|i: int|
        0 <= i < events.len() && (#[trigger] events[i] matches BuildEvent::Constructed(Ok(tx))
            && tx.verified is Ok && tx.unsigned_tx_hex == unsigned_tx_hex)
}

/// Whether an event lists outputs from which a selection funds the withdrawal.
pub open spec fn lists_funds(
    executor: WithdrawalExecutor,
    w: WithdrawalRow,
    event: BuildEvent,
    s: Selection,
) -> bool {
    event matches BuildEvent::Found { candidates, .. } && executor.funds(w, candidates@, s)
}

/// Whether the spendable outputs were listed and a selection funds the
/// withdrawal from them.
pub open spec fn was_funded(
    executor: WithdrawalExecutor,
    w: WithdrawalRow,
    events: Seq<BuildEvent>,
    inputs: Vec<VaultUtxo>,
    fee_atomic: u64,
    change_atomic: u64,
) -> bool {
    exists|i: int, s: Selection|
        0 <= i < events.len() && s.inputs == inputs && s.fee_atomic == fee_atomic
            && s.change_atomic == change_atomic && #[trigger] lists_funds(executor, w, events[i], s)
}

proof fn lemma_funded(
    executor: WithdrawalExecutor,
    w: WithdrawalRow,
    events: Seq<BuildEvent>,
    i: int,
    s: Selection,
)
    requires
        0 <= i < events.len(),
        lists_funds(executor, w, events[i], s),
    ensures
        was_funded(executor, w, events, s.inputs, s.fee_atomic, s.change_atomic),
{
}

proof fn lemma_funded_stays(
    executor: WithdrawalExecutor,
    w: WithdrawalRow,
    events: Seq<BuildEvent>,
    n: int,
    s: Selection,
)
    requires
        0 <= n < events.len(),
        was_funded(executor, w, events.take(n), s.inputs, s.fee_atomic, s.change_atomic),
    ensures
        was_funded(executor, w, events.take(n + 1), s.inputs, s.fee_atomic, s.change_atomic),
{
    let shorter = events.take(n);
    let longer = events.take(n + 1);
    let (i, t) = choose|i: int, t: Selection|
        0 <= i < shorter.len() && t.inputs == s.inputs && t.fee_atomic == s.fee_atomic
            && t.change_atomic == s.change_atomic && #[trigger] lists_funds(
            executor,
            w,
            shorter[i],
            t,
        );
    assert(longer[i] == shorter[i]);
    lemma_funded(executor, w, longer, i, t);
}

/// What holds of every step that a build reaches.
proof fn lemma_build(
    executor: WithdrawalExecutor,
    w: WithdrawalRow,
    steps: Seq<BuildStep>,
    events: Seq<BuildEvent>,
    n: int,
)
    requires
        is_build(executor, w, steps, events),
        0 <= n <= events.len(),
    ensures
        match steps[n] {
            BuildStep::Reserve { selection: s, .. } | BuildStep::Construct { selection: s, .. } => was_funded(
                executor,
                w,
                events.take(n),
                s.inputs,
                s.fee_atomic,
                s.change_atomic,
            ),
            BuildStep::Designate { selection: s, unsigned_tx_hex } => {
                &&& was_funded(
                    executor,
                    w,
                    events.take(n),
                    s.inputs,
                    s.fee_atomic,
                    s.change_atomic,
                )
                &&& was_verified(events.take(n), unsigned_tx_hex)
            },
            BuildStep::Commit { intent: i, unsigned_tx_hex } => {
                &&& was_funded(
                    executor,
                    w,
                    events.take(n),
                    i.inputs,
                    i.fee_atomic,
                    i.change_atomic,
                )
                &&& was_verified(events.take(n), unsigned_tx_hex)
                &&& i.payout_atomic == w.amount_atomic
            },
            BuildStep::Record { payout: p, .. } => {
                &&& was_funded(
                    executor,
                    w,
                    events.take(n),
                    p.inputs,
                    p.fee_atomic,
                    p.change_atomic,
                )
                &&& was_verified(events.take(n), p.unsigned_tx_hex)
                &&& p.payout_atomic == w.amount_atomic
            },
            _ => true,
        },
    decreases n,
{
    if n > 0 {
        lemma_build(executor, w, steps, events, n - 1);
        let before = steps[n - 1];
        let event = events[n - 1];
        assert(executor.builds(w, steps[n - 1], events[n - 1], steps[n - 1 + 1]));
        assert(events.take(n)[n - 1] == event);
        match before {
            BuildStep::Look => {
                if event is Found {
                    if let BuildStep::Reserve { selection, .. } = steps[n] {
                        lemma_funded(executor, w, events.take(n), n - 1, selection);
                    }
                }
            },
            BuildStep::Reserve { selection, .. } => {
                lemma_funded_stays(executor, w, events, n - 1, selection);
            },
            BuildStep::Construct { selection, .. } => {
                lemma_funded_stays(executor, w, events, n - 1, selection);
            },
            BuildStep::Designate { selection, unsigned_tx_hex } => {
                lemma_funded_stays(executor, w, events, n - 1, selection);
                lemma_verified_stays(events, n - 1, unsigned_tx_hex);
            },
            BuildStep::Commit { intent, unsigned_tx_hex } => {
                let s = Selection {
                    inputs: intent.inputs,
                    fee_atomic: intent.fee_atomic,
                    change_atomic: intent.change_atomic,
                    total_in: 0,
                };
                lemma_funded_stays(executor, w, events, n - 1, s);
                lemma_verified_stays(events, n - 1, unsigned_tx_hex);
            },
            BuildStep::Record { payout, .. } => {
                let s = Selection {
                    inputs: payout.inputs,
                    fee_atomic: payout.fee_atomic,
                    change_atomic: payout.change_atomic,
                    total_in: 0,
                };
                lemma_funded_stays(executor, w, events, n - 1, s);
                lemma_verified_stays(events, n - 1, payout.unsigned_tx_hex);
            },
            _ => {},
        }
    }
}

proof fn lemma_verified_stays(events: Seq<BuildEvent>, n: int, unsigned_tx_hex: String)
    requires
        0 <= n < events.len(),
        was_verified(events.take(n), unsigned_tx_hex),
    ensures
        was_verified(events.take(n + 1), unsigned_tx_hex),
{
    let shorter = events.take(n);
    let i = choose|i: int|
        0 <= i < shorter.len() && (#[trigger] shorter[i] matches BuildEvent::Constructed(Ok(tx))
            && tx.verified is Ok && tx.unsigned_tx_hex == unsigned_tx_hex);
    assert(events.take(n + 1)[i] == shorter[i]);
}

/// A payout is only ever recorded after every output of that very transaction
/// was verified against the plan.
pub proof fn only_a_verified_payout_is_recorded(
    executor: WithdrawalExecutor,
    w: WithdrawalRow,
    steps: Seq<BuildStep>,
    events: Seq<BuildEvent>,
    n: int,
)
    requires
        is_build(executor, w, steps, events),
        0 <= n < steps.len(),
        steps[n] is Record,
    ensures
        was_verified(events, steps[n]->payout.unsigned_tx_hex),
{
    lemma_build(executor, w, steps, events, n);
    let hex = steps[n]->payout.unsigned_tx_hex;
    let shorter = events.take(n);
    let i = choose|i: int|
        0 <= i < shorter.len() && (#[trigger] shorter[i] matches BuildEvent::Constructed(Ok(tx))
            && tx.verified is Ok && tx.unsigned_tx_hex == hex);
    assert(events[i] == shorter[i]);
}

/// The user receives exactly what was burned, and the fee comes out of the
/// vault: the recorded inputs are worth the burned amount, the fee and the
/// change.
pub proof fn a_payout_pays_exactly_the_burned_amount(
    executor: WithdrawalExecutor,
    w: WithdrawalRow,
    steps: Seq<BuildStep>,
    events: Seq<BuildEvent>,
    n: int,
)
    requires
        is_build(executor, w, steps, events),
        0 <= n < steps.len(),
        steps[n] is Record,
    ensures
        steps[n]->payout.payout_atomic == w.amount_atomic,
        total_value(steps[n]->payout.inputs@) == w.amount_atomic + steps[n]->payout.fee_atomic
            + steps[n]->payout.change_atomic,
{
    lemma_build(executor, w, steps, events, n);
    let p = steps[n]->payout;
    let shorter = events.take(n);
    let (i, s) = choose|i: int, s: Selection|
        0 <= i < shorter.len() && s.inputs == p.inputs && s.fee_atomic == p.fee_atomic
            && s.change_atomic == p.change_atomic && #[trigger] lists_funds(
            executor,
            w,
            shorter[i],
            s,
        );
    selection_conserves_value(
        shorter[i]->candidates@,
        w.amount_atomic as nat,
        executor.config.fee_rate_per_kb as nat,
        executor.config.dust_threshold_atomic as nat,
        executor.config.max_inputs_per_payout as nat,
        executor.config.vault.input_size(),
        s,
    );
}

/// A payout row is taken up exactly where there is one. Otherwise the withdrawal
/// is built where something funds it, and waits for funds only where nothing
/// does: no output alone, and no number of outputs within the cap, in their
/// order. Either way the state moves only where that is news.
pub proof fn a_withdrawal_waits_only_for_funds(
    executor: WithdrawalExecutor,
    w: WithdrawalRow,
    has_payout: bool,
    candidates: Vec<VaultUtxo>,
    next: BuildStep,
)
    requires
        executor.builds(w, BuildStep::Look, BuildEvent::Found { has_payout, candidates }, next),
    ensures
        next is Adopt <==> has_payout,
        next matches BuildStep::Adopt(t) ==> t.state == WithdrawalState::Signing && t.note is None,
        !has_payout ==> next is AwaitFunds || next is Reserve,
        next is AwaitFunds ==> ({
            let amount = w.amount_atomic as nat;
            let rate = executor.config.fee_rate_per_kb as nat;
            let bytes = executor.config.vault.input_size();
            &&& forall|i: int|
                0 <= i < candidates@.len() ==> (#[trigger] candidates@[i]).amount_atomic < amount
                    + fee(1, 2, rate, bytes) && candidates@[i].amount_atomic != amount + fee(
                    1,
                    1,
                    rate,
                    bytes,
                )
            &&& forall|k: int|
                1 <= k <= candidates@.len() && k <= executor.config.max_inputs_per_payout
                    ==> total_value(#[trigger] candidates@.take(k)) < amount + fee(
                    k as nat,
                    2,
                    rate,
                    bytes,
                )
        }),
        next matches BuildStep::AwaitFunds(t) ==> (t is None <==> w.state
            == WithdrawalState::AwaitingFunds),
        next matches BuildStep::AwaitFunds(Some(t)) ==> t.state == WithdrawalState::AwaitingFunds
            && t.note == Some(Note::InsufficientFunds),
        next matches BuildStep::Reserve { resumed, .. } ==> (resumed is Some <==> w.state
            == WithdrawalState::AwaitingFunds),
        next matches BuildStep::Reserve { resumed: Some(t), .. } ==> t.state
            == WithdrawalState::Validated && t.note is None,
{
    if next is AwaitFunds {
        let amount = w.amount_atomic as nat;
        let rate = executor.config.fee_rate_per_kb as nat;
        let bytes = executor.config.vault.input_size();
        assert forall|k: int|
            1 <= k <= candidates@.len() && k
                <= executor.config.max_inputs_per_payout implies total_value(
            #[trigger] candidates@.take(k),
        ) < amount + fee(k as nat, 2, rate, bytes) by {
            assert(!prefix_funds(candidates@, k, amount, rate, bytes));
        }
    }
}

/// What is reserved funds the withdrawal to the last unit: outputs that were
/// listed, worth the burned amount, the fee and the change, with change that is
/// no dust and a fee that is no more than its transaction needs and a dust
/// threshold.
pub proof fn a_reservation_funds_the_burned_amount(
    executor: WithdrawalExecutor,
    w: WithdrawalRow,
    candidates: Vec<VaultUtxo>,
    next: BuildStep,
)
    requires
        executor.builds(
            w,
            BuildStep::Look,
            BuildEvent::Found { has_payout: false, candidates },
            next,
        ),
        next is Reserve,
    ensures
        ({
            let s = next->Reserve_selection;
            let n = s.inputs@.len();
            let fee_with_change = fee(
                n,
                2,
                executor.config.fee_rate_per_kb as nat,
                executor.config.vault.input_size(),
            );
            &&& total_value(s.inputs@) == w.amount_atomic + s.fee_atomic + s.change_atomic
            &&& exists|from: int, to: int|
                0 <= from < to <= candidates@.len() && s.inputs@ == #[trigger] candidates@.subrange(
                    from,
                    to,
                )
            &&& s.change_atomic > 0 ==> s.fee_atomic == fee_with_change && s.change_atomic
                >= executor.config.dust_threshold_atomic
            &&& s.change_atomic == 0 ==> s.fee_atomic <= fee_with_change
                + executor.config.dust_threshold_atomic
        }),
{
    let s = next->Reserve_selection;
    let amount = w.amount_atomic as nat;
    let rate = executor.config.fee_rate_per_kb as nat;
    let dust = executor.config.dust_threshold_atomic as nat;
    let cap = executor.config.max_inputs_per_payout as nat;
    let bytes = executor.config.vault.input_size();
    selection_conserves_value(candidates@, amount, rate, dust, cap, bytes, s);
    selection_spends_what_was_offered(candidates@, amount, rate, dust, cap, bytes, s);
    what_is_not_owed_goes_back_to_the_vault(candidates@, amount, rate, dust, cap, bytes, s);
}

/// A node is asked to build a payout only where the reservation was won, and
/// then to spend exactly what was selected, to pay the user's address the burned
/// amount, and to pay the vault its change where there is any.
pub proof fn a_won_reservation_is_built_as_selected(
    executor: WithdrawalExecutor,
    w: WithdrawalRow,
    resumed: Option<Transition>,
    s: Selection,
    won: bool,
    next: BuildStep,
)
    requires
        executor.builds(
            w,
            BuildStep::Reserve { resumed, selection: s },
            BuildEvent::Reserved(won),
            next,
        ),
    ensures
        next is Construct <==> won,
        next is LostReservation <==> !won,
        next matches BuildStep::Construct { building, selection, construction } ==> {
            &&& building.state == WithdrawalState::Building
            &&& building.note is None
            &&& selection == s
            &&& construction.inputs@.len() == s.inputs@.len()
            &&& forall|i: int|
                0 <= i < s.inputs@.len() ==> (#[trigger] construction.inputs@[i]).0
                    == s.inputs@[i].txid_hex && construction.inputs@[i].1 == s.inputs@[i].vout
            &&& construction.outputs@[0] == (w.glc_address, w.amount_atomic)
            &&& construction.outputs@.len() == 2 <==> s.change_atomic > 0
            &&& construction.outputs@.len() == 1 <==> s.change_atomic == 0
            &&& s.change_atomic > 0 ==> construction.outputs@[1] == (
                executor.config.change_address,
                s.change_atomic,
            )
            &&& construction.plan.dest_hash160 == w.glc_address_hash160
            &&& construction.plan.payout_atomic == w.amount_atomic
            &&& construction.plan.change_atomic == s.change_atomic
            &&& construction.plan.fee_atomic == s.fee_atomic
            &&& construction.plan.inputs@ == s.inputs@
            &&& construction.plan.change_script_hex is Some <==> s.change_atomic > 0
            &&& construction.plan.change_script_hex is Some
                ==> construction.plan.change_script_hex->0@ == hex_text(
                p2sh_script(executor.config.vault.script_hash160@),
            )
        },
{
}

/// A transaction that is not the plan halts the withdrawal, a node that fails
/// fails the pass, and only a transaction that was verified goes on to its
/// signers.
pub proof fn a_constructed_payout_is_held_against_its_plan(
    executor: WithdrawalExecutor,
    w: WithdrawalRow,
    step: BuildStep,
    made: Result<Constructed, RpcError>,
    next: BuildStep,
)
    requires
        step is Construct,
        executor.builds(w, step, BuildEvent::Constructed(made), next),
    ensures
        next is Fail <==> made is Err,
        made matches Err(e) ==> next == BuildStep::Fail(classified(e)),
        next is Halt <==> (made matches Ok(tx) && tx.verified is Err),
        next matches BuildStep::Halt(t) ==> t.state == WithdrawalState::IntegrityHalted,
        made matches Ok(tx) ==> (tx.verified matches Err(why) ==> next == BuildStep::Halt(
            Transition {
                state: WithdrawalState::IntegrityHalted,
                note: Some(Note::OutputVerification(why)),
            },
        )),
        next is Designate <==> (made matches Ok(tx) && tx.verified is Ok),
        next matches BuildStep::Designate { selection, unsigned_tx_hex } ==> selection
            == step->Construct_selection && (made matches Ok(tx) && tx.unsigned_tx_hex
            == unsigned_tx_hex),
{
}

/// From the designated signers to the record: what is recorded is the selection
/// for this withdrawal from this vault, by these signers, in their first
/// attempt, with the transaction that was verified and the commitment that was
/// made; and the withdrawal then waits for signatures.
pub proof fn a_recorded_payout_says_what_was_selected(
    executor: WithdrawalExecutor,
    w: WithdrawalRow,
    selection: Selection,
    unsigned_tx_hex: String,
    quorum: Vec<u8>,
    committed: Committed,
    middle: BuildStep,
    next: BuildStep,
)
    requires
        executor.builds(
            w,
            BuildStep::Designate { selection, unsigned_tx_hex },
            BuildEvent::Designated(Ok(quorum)),
            middle,
        ),
        executor.builds(w, middle, BuildEvent::Committed(committed), next),
    ensures
        middle is Commit,
        middle->intent.dest_hash160 == w.glc_address_hash160,
        middle->intent.protocol_version == w.protocol_version,
        selection.change_atomic > 0 ==> middle->intent.change_hash160@
            == executor.config.change_hash160@,
        selection.change_atomic == 0 ==> forall|i: int|
            0 <= i < 20 ==> #[trigger] middle->intent.change_hash160@[i] == 0,
        next is Record,
        ({
            let p = next->payout;
            &&& p.withdrawal_index == w.withdrawal_index
            &&& p.vault_script_hash == executor.config.vault.script_hash160
            &&& p.quorum_indices == quorum
            &&& p.quorum_attempt == 0
            &&& p.commitment_hash == committed.commitment
            &&& p.intent_bytes == committed.intent
            &&& p.built_at == committed.now
            &&& p.payout_atomic == w.amount_atomic
            &&& p.fee_atomic == selection.fee_atomic
            &&& p.change_atomic == selection.change_atomic
            &&& p.inputs == selection.inputs
            &&& p.unsigned_tx_hex == unsigned_tx_hex
            &&& p.change_address is Some <==> selection.change_atomic > 0
            &&& p.change_address is Some ==> p.change_address->0
                == executor.config.change_address
            &&& next->signing.state == WithdrawalState::Signing
            &&& next->signing.note is None
        }),
{
}

/// Signers that cannot sign for the vault fail the pass, and nothing is recorded
/// for them.
pub proof fn signers_that_do_not_fit_record_nothing(
    executor: WithdrawalExecutor,
    w: WithdrawalRow,
    selection: Selection,
    unsigned_tx_hex: String,
    designated: Result<Vec<u8>, String>,
    next: BuildStep,
)
    requires
        executor.builds(
            w,
            BuildStep::Designate { selection, unsigned_tx_hex },
            BuildEvent::Designated(designated),
            next,
        ),
    ensures
        next is Fail <==> designated is Err,
        next is Commit <==> designated is Ok,
        designated matches Err(why) ==> next == BuildStep::Fail(
            ExecutorError::Rpc(RpcError::Malformed(why)),
        ),
{
}

/// A build ends where it ended, and changes on no event that was not asked for.
/// It is counted once, as what became of it.
pub proof fn building_takes_one_answer_at_a_time(
    executor: WithdrawalExecutor,
    w: WithdrawalRow,
    step: BuildStep,
    event: BuildEvent,
    next: BuildStep,
    report: WithdrawalTickReport,
)
    requires
        executor.builds(w, step, event, next),
        report.has_room(),
    ensures
        next != step ==> (step is Look && event is Found) || (step is Reserve && event is Reserved)
            || (step is Construct && event is Constructed) || (step is Designate
            && event is Designated) || (step is Commit && event is Committed),
        step is AwaitFunds || step is LostReservation <==> step.counted(report).awaiting_funds
            == report.awaiting_funds + 1,
        step is Record <==> step.counted(report).built == report.built + 1,
        step is Halt <==> step.counted(report).halted == report.halted + 1,
        step.counted(report).total() == report.total() + if step is AwaitFunds
            || step is LostReservation || step is Record || step is Halt {
            1int
        } else {
            0int
        },
{
}

} // verus!
