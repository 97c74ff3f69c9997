//! Carrying out an approved sweep: the node constructs it, it is held against
//! the plan, the signers are asked, and the assembled transaction is sent.
//!
//! The authorisation is not here: it is in every signer having approved the
//! same commitment on its own.

use crate::glc::rpc::{BroadcastOutcome, RpcError};
use crate::p2p::collector::DesignatedSigner;
use crate::solana::pubkey::Pubkey;
use crate::withdrawal::executor::{outpoints, outpoints_of};
use crate::withdrawal::multisig::{PartialSignature, Transaction};
use crate::withdrawal::signing::AssembledTx;
use crate::withdrawal::sweep::{departs, realises, verify_sweep_tx, SweepError, SweepPlan};
use crate::withdrawal::vault::MultisigVault;
use vstd::prelude::*;

verus! {

/// The vault's signers with the validators that hold their keys: by position,
/// as far as there are both.
pub open spec fn paired(validators: Seq<Pubkey>, vault_keys: Seq<[u8; 33]>) -> Seq<DesignatedSigner> {
    Seq::new(
        if validators.len() <= vault_keys.len() {
            validators.len()
        } else {
            vault_keys.len()
        },
        |i: int| DesignatedSigner { validator_pubkey: validators[i], vault_pubkey: vault_keys[i] },
    )
}

/// Every signer of the vault. A sweep does not come from a withdrawal, so
/// there is nothing to designate a quorum from: all are asked.
pub fn sweep_signers(validators: &[Pubkey], vault: &MultisigVault) -> (signers: Vec<
    DesignatedSigner,
>)
    ensures
        signers@ == paired(validators@, vault.signer_pubkeys@),
{
    let mut signers: Vec<DesignatedSigner> = Vec::new();
    let mut i: usize = 0;
    while i < validators.len() && i < vault.signer_pubkeys.len()
        invariant
            i <= validators@.len(),
            i <= vault.signer_pubkeys@.len(),
            signers@ == paired(validators@, vault.signer_pubkeys@).take(i as int),
        decreases validators@.len() - i,
    {
        signers.push(
            DesignatedSigner {
                validator_pubkey: validators[i],
                vault_pubkey: vault.signer_pubkeys[i],
            },
        );
        i = i + 1;
        assert(signers@ =~= paired(validators@, vault.signer_pubkeys@).take(i as int));
    }
    assert(signers@ =~= paired(validators@, vault.signer_pubkeys@));
    signers
}

/// Why a sweep was not carried out.
#[derive(Debug, PartialEq, Eq)]
pub enum SweepFailure {
    Node(RpcError),
    /// The node constructed something that is no transaction.
    Unparseable(String),
    /// The node constructed something else than the plan.
    NotThePlan(SweepError),
    TooFewApprovals { have: usize, need: usize },
    Assembly(String),
    /// The vault changed since the plan was made.
    InputsGone,
}

/// How a sweep ended.
#[derive(Debug, PartialEq, Eq)]
pub enum SweepOutcome {
    Broadcast { txid: String },
    /// It had been broadcast before.
    AlreadyInChain,
}

/// What carrying out a sweep does next.
#[derive(Debug, PartialEq, Eq)]
pub enum SweepStep {
    /// Have the node construct the transaction.
    Construct { inputs: Vec<(String, i64)>, outputs: Vec<(String, u64)> },
    /// Ask the signers.
    Collect { unsigned_tx_hex: String, unsigned: Transaction },
    Assemble { unsigned: Transaction, partials: Vec<PartialSignature> },
    Send(AssembledTx),
    Done(Result<SweepOutcome, SweepFailure>),
}

/// What came back.
#[derive(Debug, PartialEq, Eq)]
pub enum SweepEvent {
    /// The node's transaction as it printed it, and as it was parsed.
    Constructed(Result<(String, Result<Transaction, String>), RpcError>),
    Partials(Vec<PartialSignature>),
    Assembled(Result<AssembledTx, String>),
    Sent(Result<BroadcastOutcome, RpcError>),
}

/// Whether a step asks the node for the planned sweep.
pub open spec fn asks_for(plan: SweepPlan, step: SweepStep) -> bool {
    step matches SweepStep::Construct { inputs, outputs } && inputs@ == outpoints_of(plan.inputs@)
        && outputs@ == seq![(plan.dest_address, plan.swept_atomic)]
}

/// Starts to carry out a planned sweep.
pub fn start_sweep(plan: &SweepPlan) -> (step: SweepStep)
    ensures
        asks_for(*plan, step),
{
    let mut outputs: Vec<(String, u64)> = Vec::new();
    outputs.push((plan.dest_address.clone(), plan.swept_atomic));
    assert(outputs@ =~= seq![(plan.dest_address, plan.swept_atomic)]);
    SweepStep::Construct { inputs: outpoints(plan.inputs.as_slice()), outputs }
}

/// Whether `next` follows an event, for a vault that needs `threshold`
/// signatures.
pub open spec fn sweeps(
    plan: SweepPlan,
    threshold: usize,
    step: SweepStep,
    event: SweepEvent,
    next: SweepStep,
) -> bool {
    match (step, event) {
        (SweepStep::Construct { .. }, SweepEvent::Constructed(made)) => match made {
            Err(e) => next == SweepStep::Done(Err(SweepFailure::Node(e))),
            Ok((_, Err(why))) => next == SweepStep::Done(Err(SweepFailure::Unparseable(why))),
            Ok((unsigned_tx_hex, Ok(unsigned))) => match next {
                SweepStep::Collect { .. } => realises(unsigned, plan) && next
                    == (SweepStep::Collect { unsigned_tx_hex, unsigned }),
                SweepStep::Done(Err(SweepFailure::NotThePlan(e))) => departs(unsigned, plan, e),
                _ => false,
            },
        },
        (SweepStep::Collect { unsigned, .. }, SweepEvent::Partials(partials)) => next
            == if partials@.len() < threshold {
            SweepStep::Done(
                Err(
                    SweepFailure::TooFewApprovals { have: partials@.len() as usize, need: threshold },
                ),
            )
        } else {
            SweepStep::Assemble { unsigned, partials }
        },
        (SweepStep::Assemble { .. }, SweepEvent::Assembled(assembled)) => next == match assembled {
            Ok(signed) => SweepStep::Send(signed),
            Err(why) => SweepStep::Done(Err(SweepFailure::Assembly(why))),
        },
        (SweepStep::Send(_), SweepEvent::Sent(sent)) => next == SweepStep::Done(
            match sent {
                Ok(BroadcastOutcome::Accepted { txid }) => Ok(SweepOutcome::Broadcast { txid }),
                Ok(BroadcastOutcome::AlreadyInChain) => Ok(SweepOutcome::AlreadyInChain),
                Ok(BroadcastOutcome::MissingInputs) => Err(SweepFailure::InputsGone),
                Err(e) => Err(SweepFailure::Node(e)),
            },
        ),
        _ => next == step,
    }
}

/// Decides what follows an event. An event that was not asked for changes
/// nothing.
pub fn sweep_execute(
    plan: &SweepPlan,
    threshold: usize,
    step: SweepStep,
    event: SweepEvent,
) -> (next: SweepStep)
    ensures
        sweeps(*plan, threshold, step, event, next),
{
    match (step, event) {
        (SweepStep::Construct { .. }, SweepEvent::Constructed(made)) => match made {
            Err(e) => SweepStep::Done(Err(SweepFailure::Node(e))),
            Ok((_, Err(why))) => SweepStep::Done(Err(SweepFailure::Unparseable(why))),
            Ok((unsigned_tx_hex, Ok(unsigned))) => match verify_sweep_tx(&unsigned, plan) {
                Ok(_) => SweepStep::Collect { unsigned_tx_hex, unsigned },
                Err(e) => SweepStep::Done(Err(SweepFailure::NotThePlan(e))),
            },
        },
        (
            SweepStep::Collect { unsigned, unsigned_tx_hex: _ },
            SweepEvent::Partials(partials),
        ) => {
            if partials.len() < threshold {
                SweepStep::Done(
                    Err(SweepFailure::TooFewApprovals { have: partials.len(), need: threshold }),
                )
            } else {
                SweepStep::Assemble { unsigned, partials }
            }
        },
        (SweepStep::Assemble { .. }, SweepEvent::Assembled(assembled)) => match assembled {
            Ok(signed) => SweepStep::Send(signed),
            Err(why) => SweepStep::Done(Err(SweepFailure::Assembly(why))),
        },
        (SweepStep::Send(_), SweepEvent::Sent(sent)) => SweepStep::Done(
            match sent {
                Ok(BroadcastOutcome::Accepted { txid }) => Ok(SweepOutcome::Broadcast { txid }),
                Ok(BroadcastOutcome::AlreadyInChain) => Ok(SweepOutcome::AlreadyInChain),
                Ok(BroadcastOutcome::MissingInputs) => Err(SweepFailure::InputsGone),
                Err(e) => Err(SweepFailure::Node(e)),
            },
        ),
        (other, _) => other,
    }
}

/// A sweep from its start: each step follows the one before it.
pub open spec fn is_sweep(
    plan: SweepPlan,
    threshold: usize,
    steps: Seq<SweepStep>,
    events: Seq<SweepEvent>,
) -> bool {
    &&& steps.len() == events.len() + 1
    &&& asks_for(plan, steps[0])
    &&& forall|k: int|
        0 <= k < events.len() ==> sweeps(
            plan,
            threshold,
            #[trigger] steps[k],
            events[k],
            steps[k + 1],
        )
}

/// The signers are only ever asked to sign the planned sweep, and nothing is
/// assembled from fewer signatures than the vault needs.
pub proof fn only_the_planned_sweep_is_signed(
    plan: SweepPlan,
    threshold: usize,
    steps: Seq<SweepStep>,
    events: Seq<SweepEvent>,
    n: int,
)
    requires
        is_sweep(plan, threshold, steps, events),
        0 <= n < steps.len(),
    ensures
        match steps[n] {
            SweepStep::Collect { unsigned, .. } => realises(unsigned, plan),
            SweepStep::Assemble { unsigned, partials } => realises(unsigned, plan)
                && partials@.len() >= threshold,
            _ => true,
        },
    decreases n,
{
    if n > 0 {
        only_the_planned_sweep_is_signed(plan, threshold, steps, events, n - 1);
        assert(sweeps(plan, threshold, steps[n - 1], events[n - 1], steps[n - 1 + 1]));
    }
}

/// Every validator is paired with the vault key at its own place, as far as
/// there are both, and nobody is left out before that.
pub proof fn signers_are_paired_by_their_place(
    validators: Seq<Pubkey>,
    vault_keys: Seq<[u8; 33]>,
    i: int,
)
    ensures
        paired(validators, vault_keys).len() <= validators.len(),
        paired(validators, vault_keys).len() <= vault_keys.len(),
        paired(validators, vault_keys).len() == validators.len() || paired(
            validators,
            vault_keys,
        ).len() == vault_keys.len(),
        0 <= i < paired(validators, vault_keys).len() ==> paired(
            validators,
            vault_keys,
        )[i].validator_pubkey == validators[i] && paired(validators, vault_keys)[i].vault_pubkey
            == vault_keys[i],
{
}

/// What a node constructed is put to the signers exactly where it is the planned
/// sweep, as it stands.
pub proof fn the_planned_sweep_is_put_to_the_signers(
    plan: SweepPlan,
    threshold: usize,
    step: SweepStep,
    made: Result<(String, Result<Transaction, String>), RpcError>,
    next: SweepStep,
)
    requires
        step is Construct,
        sweeps(plan, threshold, step, SweepEvent::Constructed(made), next),
    ensures
        next is Collect <==> (made matches Ok((_, Ok(tx))) && realises(tx, plan)),
        next matches SweepStep::Collect { unsigned_tx_hex, unsigned } ==> made == Ok::<_, RpcError>(
            (unsigned_tx_hex, Ok::<Transaction, String>(unsigned)),
        ),
        made matches Err(e) ==> next == SweepStep::Done(Err(SweepFailure::Node(e))),
        made matches Ok((_, Err(why))) ==> next == SweepStep::Done(
            Err(SweepFailure::Unparseable(why)),
        ),
        (next matches SweepStep::Done(Err(SweepFailure::NotThePlan(_)))) <==> (made matches Ok(
            (_, Ok(tx)),
        ) && !realises(tx, plan)),
{
    if let Ok((_, Ok(tx))) = made {
        if let SweepStep::Done(Err(SweepFailure::NotThePlan(e))) = next {
            crate::withdrawal::sweep::only_the_planned_transaction_is_the_sweep(tx, plan, e);
        }
    }
}

/// A sweep is assembled exactly where at least as many signed as the vault
/// needs, and what is assembled is sent.
pub proof fn a_sweep_with_enough_signatures_is_sent(
    plan: SweepPlan,
    threshold: usize,
    unsigned_tx_hex: String,
    unsigned: Transaction,
    partials: Vec<PartialSignature>,
    after_collecting: SweepStep,
    assembled: Result<AssembledTx, String>,
    after_assembling: SweepStep,
)
    requires
        sweeps(
            plan,
            threshold,
            SweepStep::Collect { unsigned_tx_hex, unsigned },
            SweepEvent::Partials(partials),
            after_collecting,
        ),
        sweeps(
            plan,
            threshold,
            SweepStep::Assemble { unsigned, partials },
            SweepEvent::Assembled(assembled),
            after_assembling,
        ),
    ensures
        after_collecting == (SweepStep::Assemble { unsigned, partials }) <==> partials@.len()
            >= threshold,
        partials@.len() < threshold <==> after_collecting is Done,
        after_collecting matches SweepStep::Done(outcome) ==> (outcome matches Err(
            SweepFailure::TooFewApprovals { have, need },
        ) && have == partials@.len() && need == threshold),
        assembled matches Ok(signed) ==> after_assembling == SweepStep::Send(signed),
        assembled matches Err(why) ==> after_assembling == SweepStep::Done(
            Err(SweepFailure::Assembly(why)),
        ),
{
}

/// A sweep ends as the node says: a transaction that it has, or has already, is
/// success, and gone inputs or a failed call are not.
pub proof fn a_sent_sweep_ends_as_the_node_says(
    plan: SweepPlan,
    threshold: usize,
    signed: AssembledTx,
    sent: Result<BroadcastOutcome, RpcError>,
    next: SweepStep,
)
    requires
        sweeps(plan, threshold, SweepStep::Send(signed), SweepEvent::Sent(sent), next),
    ensures
        sent matches Ok(BroadcastOutcome::Accepted { txid }) ==> next == SweepStep::Done(
            Ok(SweepOutcome::Broadcast { txid }),
        ),
        (next matches SweepStep::Done(Ok(SweepOutcome::AlreadyInChain))) <==> sent == Ok::<
            BroadcastOutcome,
            RpcError,
        >(BroadcastOutcome::AlreadyInChain),
        (next matches SweepStep::Done(Err(SweepFailure::InputsGone))) <==> sent == Ok::<
            BroadcastOutcome,
            RpcError,
        >(BroadcastOutcome::MissingInputs),
        sent matches Err(e) ==> next == SweepStep::Done(Err(SweepFailure::Node(e))),
        next is Done,
{
}

/// A sweep that ended stays so, and changes on no event that was not asked for.
pub proof fn a_sweep_takes_one_answer_at_a_time(
    plan: SweepPlan,
    threshold: usize,
    step: SweepStep,
    event: SweepEvent,
    next: SweepStep,
)
    requires
        sweeps(plan, threshold, step, event, next),
    ensures
        step is Done ==> next == step,
        next != step ==> (step is Construct && event is Constructed) || (step is Collect
            && event is Partials) || (step is Assemble && event is Assembled) || (step is Send
            && event is Sent),
{
}

/// A sweep starts by asking for a transaction that spends every planned output,
/// in order, and pays the one destination everything that is swept.
pub proof fn a_sweep_asks_for_what_was_planned(plan: SweepPlan, step: SweepStep, i: int)
    requires
        call_ensures(start_sweep, (&plan,), step),
    ensures
        step matches SweepStep::Construct { inputs, outputs } && {
            &&& inputs@.len() == plan.inputs@.len()
            &&& 0 <= i < plan.inputs@.len() ==> inputs@[i].0 == plan.inputs@[i].txid_hex
                && inputs@[i].1 == plan.inputs@[i].vout
            &&& outputs@.len() == 1
            &&& outputs@[0].0 == plan.dest_address
            &&& outputs@[0].1 == plan.swept_atomic
        },
{
    if 0 <= i < plan.inputs@.len() {
        crate::withdrawal::executor::the_outpoints_are_those_of_the_outputs(plan.inputs@, i);
    }
}

} // verus!
