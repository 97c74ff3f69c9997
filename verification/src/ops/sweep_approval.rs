//! Planning a sweep of the vault and staging this operator's approval of it.
//!
//! Every operator does this on their own. If their commitments differ they are
//! looking at different contents of the vault, and have to reconcile before
//! any of them approves.

use crate::bytes::same_bytes;
use crate::glc::hex::{decode_exact, encode, hex_bytes, hex_text, is_hex, HexError};
use crate::glc::withdrawal_db::{total_value, VaultUtxo};
use crate::hash::sha256;
use crate::p2p::sweep_view::{
    fee_ceiling, is_row_of, knows, local_plan, local_rows, p2sh_destinations_are_recognised,
    row_of, same_outpoint, staged, verdict, AuthorisedSweep, StoreRead, SweepApproval, SweepRefusal,
    SWEEP_APPROVAL_TTL_SECONDS,
};
use crate::withdrawal::config::WithdrawalConfig;
use crate::withdrawal::multisig::{Transaction, TxInput};
use crate::withdrawal::sweep::{
    p2sh_script, plan_sweep, plans, realises, sweep_fits, unsigned_spend, SweepDestination,
    SweepError, SweepPlan,
};
use vstd::prelude::*;

verus! {

/// Why a sweep was not planned, or its approval not staged.
#[derive(Debug, PartialEq, Eq)]
pub enum ApprovalRefusal {
    /// The destination is not the hash of a script.
    NotAHash(HexError),
    Unplannable(SweepError),
    /// What the operator states is not a commitment.
    NotACommitment(HexError),
    /// The operator states the commitment of another sweep.
    OtherSweep { actual: [u8; 32], claimed: [u8; 32] },
}

impl ApprovalRefusal {
    /// What the operator reads.
    pub open spec fn text(self) -> Seq<char> {
        match self {
            ApprovalRefusal::NotAHash(e) => "--dest-hash160 is not 20 hex bytes: "@ + e.text(),
            ApprovalRefusal::Unplannable(e) => "cannot plan this sweep: "@ + e.text(),
            ApprovalRefusal::NotACommitment(e) => "--commitment is not 32 hex bytes: "@ + e.text(),
            ApprovalRefusal::OtherSweep { actual, claimed } =>
                "REFUSING TO STAGE: the sweep this operator can build commits to\n  "@ + hex_text(
                    actual@,
                ) + "\nbut the approval names\n  "@ + hex_text(claimed@)
                    + "\nThese are different sweeps. Reconcile the vault view with the other operators before approving."@,
        }
    }

    /// What the operator reads.
    pub fn message(&self) -> (m: String)
        ensures
            m@ == self.text(),
    {
        let mut out: String = String::new();
        match self {
            ApprovalRefusal::NotAHash(e) => {
                out.append("--dest-hash160 is not 20 hex bytes: ");
                out.append(e.message().as_str());
            },
            ApprovalRefusal::Unplannable(e) => {
                out.append("cannot plan this sweep: ");
                out.append(e.message().as_str());
            },
            ApprovalRefusal::NotACommitment(e) => {
                out.append("--commitment is not 32 hex bytes: ");
                out.append(e.message().as_str());
            },
            ApprovalRefusal::OtherSweep { actual, claimed } => {
                out.append("REFUSING TO STAGE: the sweep this operator can build commits to\n  ");
                out.append(encode(actual).as_str());
                out.append("\nbut the approval names\n  ");
                out.append(encode(claimed).as_str());
                out.append(
                    "\nThese are different sweeps. Reconcile the vault view with the other operators before approving.",
                );
            },
        }
        assert(out@ =~= self.text());
        out
    }
}

/// How many of the vault's outputs a sweep leaves behind because payouts have
/// reserved them. Not zero means that the sweep is not total.
pub fn outputs_left_behind(in_vault: u64, available: u64) -> (left: u64)
    ensures
        left == if in_vault >= available {
            in_vault - available
        } else {
            0
        },
{
    in_vault.saturating_sub(available)
}

/// Whether a text is `n` bytes in hexadecimal.
pub open spec fn spells(text: Seq<char>, n: nat) -> bool {
    is_hex(text) && text.len() == 2 * n
}

/// Whether what is wrong with a text is that it is not `n` bytes in
/// hexadecimal.
pub open spec fn misspells(text: Seq<char>, n: nat, e: HexError) -> bool {
    match e {
        HexError::NotHex => !is_hex(text),
        HexError::WrongLength => is_hex(text) && text.len() != 2 * n,
    }
}

/// Whether a result is the sweep of this operator's vault to the P2SH
/// destination that the operator types, or the first reason against it.
pub open spec fn plans_for(
    config: WithdrawalConfig,
    dest_hash160: Seq<char>,
    dest_address: Seq<char>,
    available: Seq<VaultUtxo>,
    result: Result<SweepPlan, ApprovalRefusal>,
) -> bool {
    let hash = hex_bytes(dest_hash160);
    let planned = |r: Result<SweepPlan, SweepError>|
        plans(
            config.vault.script_hash160@,
            hash,
            p2sh_script(hash),
            dest_address,
            available,
            config.fee_rate_per_kb,
            config.dust_threshold_atomic,
            config.max_inputs_per_payout,
            config.vault.input_size(),
            r,
        );
    match result {
        Ok(plan) => spells(dest_hash160, 20) && planned(Ok(plan)),
        Err(ApprovalRefusal::NotAHash(e)) => misspells(dest_hash160, 20, e),
        Err(ApprovalRefusal::Unplannable(e)) => spells(dest_hash160, 20) && planned(Err(e)),
        Err(_) => false,
    }
}

/// Builds the sweep that this operator is about to approve, from this
/// operator's own view of the vault.
pub fn build_plan(
    config: &WithdrawalConfig,
    dest_hash160: &str,
    dest_address: &str,
    available: &[VaultUtxo],
) -> (result: Result<SweepPlan, ApprovalRefusal>)
    requires
        config.vault.sized(),
        available@.len() <= config.max_inputs_per_payout ==> sweep_fits(
            available@,
            config.vault.input_size(),
        ),
    ensures
        plans_for(*config, dest_hash160@, dest_address@, available@, result),
{
    let hash160: [u8; 20] = match decode_exact::<20>(dest_hash160) {
        Ok(hash160) => hash160,
        Err(e) => {
            return Err(ApprovalRefusal::NotAHash(e));
        },
    };
    let dest: SweepDestination = SweepDestination::p2sh(hash160, String::from_str(dest_address));
    match plan_sweep(
        config.vault.script_hash160,
        dest,
        available,
        config.fee_rate_per_kb,
        config.dust_threshold_atomic,
        config.max_inputs_per_payout,
        config.vault.input_bytes(),
    ) {
        Ok(plan) => Ok(plan),
        Err(e) => Err(ApprovalRefusal::Unplannable(e)),
    }
}

/// Whether an operator's approval of a sweep is made, or refused, as it has to
/// be.
pub open spec fn approves(
    config: WithdrawalConfig,
    dest_hash160: Seq<char>,
    dest_address: Seq<char>,
    available: Seq<VaultUtxo>,
    protocol_version: u8,
    claim: Seq<char>,
    now: int,
    note: String,
    result: Result<SweepApproval, ApprovalRefusal>,
) -> bool {
    match result {
        Ok(approval) => {
            &&& spells(claim, 32)
            &&& approval.commitment@ == hex_bytes(claim)
            &&& exists|plan: SweepPlan| #[trigger]
                plans_for(config, dest_hash160, dest_address, available, Ok(plan))
                    && approval.commitment@ == sha256(plan.intent(protocol_version))
            &&& approval.expiry_unix == now + SWEEP_APPROVAL_TTL_SECONDS
            &&& approval.note == note
        },
        Err(ApprovalRefusal::NotACommitment(e)) => misspells(claim, 32, e),
        Err(ApprovalRefusal::OtherSweep { actual, claimed }) => {
            &&& spells(claim, 32)
            &&& claimed@ == hex_bytes(claim)
            &&& actual@ != claimed@
            &&& exists|plan: SweepPlan| #[trigger]
                plans_for(config, dest_hash160, dest_address, available, Ok(plan))
                    && actual@ == sha256(plan.intent(protocol_version))
        },
        Err(e) => spells(claim, 32) && plans_for(
            config,
            dest_hash160,
            dest_address,
            available,
            Err(e),
        ),
    }
}

/// Stages the approval of the sweep that this operator can build. The
/// commitment that the operator states is checked, not trusted.
pub fn sweep_approve(
    config: &WithdrawalConfig,
    dest_hash160: &str,
    dest_address: &str,
    available: &[VaultUtxo],
    protocol_version: u8,
    commitment: &str,
    now: i64,
    note: String,
) -> (result: Result<SweepApproval, ApprovalRefusal>)
    requires
        config.vault.sized(),
        available@.len() <= config.max_inputs_per_payout ==> sweep_fits(
            available@,
            config.vault.input_size(),
        ),
        now + SWEEP_APPROVAL_TTL_SECONDS <= i64::MAX,
    ensures
        approves(
            *config,
            dest_hash160@,
            dest_address@,
            available@,
            protocol_version,
            commitment@,
            now as int,
            note,
            result,
        ),
{
    let claimed: [u8; 32] = match decode_exact::<32>(commitment) {
        Ok(claimed) => claimed,
        Err(e) => {
            return Err(ApprovalRefusal::NotACommitment(e));
        },
    };
    let plan: SweepPlan = match build_plan(config, dest_hash160, dest_address, available) {
        Ok(plan) => plan,
        Err(e) => {
            return Err(e);
        },
    };
    assert(plans_for(*config, dest_hash160@, dest_address@, available@, Ok(plan)));
    let actual: [u8; 32] = plan.commitment(protocol_version);
    if !same_bytes(&actual, &claimed) {
        return Err(ApprovalRefusal::OtherSweep { actual, claimed });
    }
    Ok(
        SweepApproval {
            commitment: actual,
            expiry_unix: now + SWEEP_APPROVAL_TTL_SECONDS,
            note,
        },
    )
}

/// Operators who see the same vault and name the same destination arrive at
/// the same commitment. Commitments that differ mean views that differ.
pub proof fn one_view_gives_one_commitment(
    config: WithdrawalConfig,
    dest_hash160: Seq<char>,
    dest_address: Seq<char>,
    available: Seq<VaultUtxo>,
    protocol_version: u8,
    a: SweepPlan,
    b: SweepPlan,
)
    requires
        plans_for(config, dest_hash160, dest_address, available, Ok(a)),
        plans_for(config, dest_hash160, dest_address, available, Ok(b)),
    ensures
        a.intent(protocol_version) == b.intent(protocol_version),
        sha256(a.intent(protocol_version)) == sha256(b.intent(protocol_version)),
{
}

/// Whether no output is listed twice.
pub open spec fn lists_each_once(available: Seq<VaultUtxo>) -> bool {
    forall|i: int, j: int|
        0 <= i < j < available.len() ==> (#[trigger] available[i]).txid@ != (
        #[trigger] available[j]).txid@ || available[i].vout != available[j].vout
}

/// The row that an input of the approved sweep spends is the one at its place.
proof fn lemma_row_at(available: Seq<VaultUtxo>, input: TxInput, i: int)
    requires
        0 <= i < available.len(),
        is_row_of(available[i], input),
        forall|j: int| 0 <= j < i ==> !is_row_of(#[trigger] available[j], input),
    ensures
        row_of(available, input) == Some(available[i]),
    decreases available.len(),
{
    if i > 0 {
        assert(!is_row_of(available[0], input));
        assert forall|j: int| 0 <= j < i - 1 implies !is_row_of(
            #[trigger] available.drop_first()[j],
            input,
        ) by {
            assert(available.drop_first()[j] == available[j + 1]);
        }
        lemma_row_at(available.drop_first(), input, i - 1);
    }
}

proof fn lemma_reverse_injective(a: Seq<u8>, b: Seq<u8>)
    requires
        a.reverse() == b.reverse(),
    ensures
        a == b,
{
    assert(a.len() == a.reverse().len() == b.len());
    assert forall|i: int| 0 <= i < a.len() implies a[i] == b[i] by {
        assert(a.reverse()[a.len() - 1 - i] == a[i]);
        assert(b.reverse()[b.len() - 1 - i] == b[i]);
    }
    assert(a =~= b);
}

/// A validator that sees the vault as the operator does finds the approved
/// sweep in the transaction that realises it.
proof fn lemma_rows_are_the_vault(available: Seq<VaultUtxo>, tx: Transaction, plan: SweepPlan)
    requires
        realises(tx, plan),
        plan.inputs@ == available,
        lists_each_once(available),
    ensures
        knows(available, tx.inputs@, tx.inputs@.len() as int),
        local_rows(available, tx.inputs@) == available,
{
    assert forall|i: int| 0 <= i < tx.inputs@.len() implies row_of(
        available,
        #[trigger] tx.inputs@[i],
    ) == Some(available[i]) by {
        let input = tx.inputs@[i];
        assert(unsigned_spend(input, plan.inputs@[i]));
        assert(is_row_of(available[i], input));
        assert forall|j: int| 0 <= j < i implies !is_row_of(#[trigger] available[j], input) by {
            assert(unsigned_spend(tx.inputs@[j], plan.inputs@[j]));
            if is_row_of(available[j], input) {
                lemma_reverse_injective(available[j].txid@, available[i].txid@);
                assert(available[j].vout == available[i].vout);
            }
        }
        lemma_row_at(available, input, i);
    }
    assert forall|i: int, j: int| 0 <= i < j < tx.inputs@.len() implies !#[trigger] same_outpoint(
        tx.inputs@[i],
        tx.inputs@[j],
    ) by {
        assert(unsigned_spend(tx.inputs@[i], plan.inputs@[i]));
        assert(unsigned_spend(tx.inputs@[j], plan.inputs@[j]));
        if same_outpoint(tx.inputs@[i], tx.inputs@[j]) {
            lemma_reverse_injective(available[i].txid@, available[j].txid@);
        }
    }
    assert(local_rows(available, tx.inputs@) =~= available);
}

/// What an operator approves, every validator with the same view of the vault
/// recognises in the transaction that realises it: it arrives at the very
/// commitment that was staged, and signs while the approval is in force and no
/// other sweep was signed.
pub proof fn an_approved_sweep_is_signed(
    config: WithdrawalConfig,
    dest_hash160: Seq<char>,
    dest_address: Seq<char>,
    available: Seq<VaultUtxo>,
    protocol_version: u8,
    approved: SweepPlan,
    tx: Transaction,
    planned: Result<SweepPlan, SweepRefusal>,
)
    requires
        plans_for(config, dest_hash160, dest_address, available, Ok(approved)),
        lists_each_once(available),
        realises(tx, approved),
        local_plan(config, available, tx, planned),
    ensures
        planned matches Ok(plan) && realises(tx, plan) && plan.intent(protocol_version)
            == approved.intent(protocol_version),
        forall|
            before: Option<[u8; 32]>,
            commitment: Seq<u8>,
            read: StoreRead,
            now: int,
            after: Option<[u8; 32]>,
            result: Result<AuthorisedSweep, SweepRefusal>,
        |
            {
                &&& #[trigger] verdict(
                    config,
                    before,
                    planned->Ok_0,
                    commitment,
                    tx,
                    read,
                    now,
                    after,
                    result,
                )
                &&& staged(read) matches Ok(Some(a)) && a.commitment == commitment && now
                    <= a.expiry
                &&& before matches Some(b) ==> b@ == commitment
            } ==> result is Ok,
{
    lemma_rows_are_the_vault(available, tx, approved);
    p2sh_destinations_are_recognised(hex_bytes(dest_hash160));
    let rows = local_rows(available, tx.inputs@);
    assert(total_value(rows) == approved.swept_atomic + approved.fee_atomic);
    assert(approved.fee_atomic as nat <= fee_ceiling(config, tx.inputs@.len()));
    assert(planned is Ok);
    assert(realises(tx, planned->Ok_0));
    assert(planned->Ok_0.intent(protocol_version) == approved.intent(protocol_version));
}

/// A sweep is planned for an operator exactly where the destination is twenty
/// bytes in hexadecimal other than the vault itself, and the vault holds
/// something within the cap that is worth more than the fee and leaves no dust.
/// It then spends everything that is available and pays the P2SH script of that
/// hash.
pub proof fn an_operator_sweeps_the_whole_vault(
    config: WithdrawalConfig,
    dest_hash160: Seq<char>,
    dest_address: Seq<char>,
    available: Seq<VaultUtxo>,
    result: Result<SweepPlan, ApprovalRefusal>,
)
    requires
        plans_for(config, dest_hash160, dest_address, available, result),
        available.len() <= usize::MAX,
        total_value(available) <= u64::MAX,
    ensures
        ({
            let cost = crate::withdrawal::coin::fee(
                available.len(),
                1,
                config.fee_rate_per_kb as nat,
                config.vault.input_size(),
            );
            &&& result is Ok <==> {
                &&& is_hex(dest_hash160)
                &&& dest_hash160.len() == 40
                &&& available.len() > 0
                &&& hex_bytes(dest_hash160) != config.vault.script_hash160@
                &&& available.len() <= config.max_inputs_per_payout
                &&& total_value(available) > cost
                &&& total_value(available) >= cost + config.dust_threshold_atomic
            }
            &&& (result matches Ok(plan) ==> {
                &&& plan.inputs@ == available
                &&& plan.swept_atomic + cost == total_value(available)
                &&& plan.fee_atomic == cost
                &&& plan.dest_hash160@ == hex_bytes(dest_hash160)
                &&& plan.dest_script_pubkey@ == p2sh_script(hex_bytes(dest_hash160))
                &&& plan.dest_address@ == dest_address
                &&& plan.source_hash160@ == config.vault.script_hash160@
            })
            &&& (result matches Err(ApprovalRefusal::NotAHash(e)) ==> (e == HexError::NotHex <==>
                !is_hex(dest_hash160)))
        }),
{
    let hash = hex_bytes(dest_hash160);
    let planned: Result<SweepPlan, SweepError> = match result {
        Ok(plan) => Ok(plan),
        Err(ApprovalRefusal::Unplannable(e)) => Err(e),
        Err(_) => arbitrary(),
    };
    if spells(dest_hash160, 20) {
        crate::withdrawal::sweep::a_sweep_moves_everything_but_its_fee(
            config.vault.script_hash160@,
            hash,
            p2sh_script(hash),
            dest_address,
            available,
            config.fee_rate_per_kb,
            config.dust_threshold_atomic,
            config.max_inputs_per_payout,
            config.vault.input_size(),
            planned,
        );
    }
}

/// What an approval leaves behind is what the vault holds beyond what is
/// available, and never less than nothing.
pub proof fn what_is_not_available_is_left_behind(in_vault: u64, available: u64, left: u64)
    requires
        call_ensures(outputs_left_behind, (in_vault, available), left),
    ensures
        in_vault >= available ==> left + available == in_vault,
        in_vault < available ==> left == 0,
{
}

/// An operator approves only the sweep that is planned here and now, under the
/// commitment that they were told, for the time that an approval lasts.
pub proof fn an_operator_approves_what_they_computed(
    config: WithdrawalConfig,
    dest_hash160: Seq<char>,
    dest_address: Seq<char>,
    available: Seq<VaultUtxo>,
    protocol_version: u8,
    claim: Seq<char>,
    now: int,
    note: String,
    result: Result<SweepApproval, ApprovalRefusal>,
)
    requires
        approves(
            config,
            dest_hash160,
            dest_address,
            available,
            protocol_version,
            claim,
            now,
            note,
            result,
        ),
    ensures
        result matches Ok(approval) ==> {
            &&& is_hex(claim) && claim.len() == 64
            &&& approval.commitment@ == hex_bytes(claim)
            &&& approval.expiry_unix - now == SWEEP_APPROVAL_TTL_SECONDS
            &&& approval.note == note
            &&& exists|plan: SweepPlan| #[trigger]
                plans_for(config, dest_hash160, dest_address, available, Ok(plan))
                    && hex_bytes(claim) == sha256(plan.intent(protocol_version))
        },
        (result matches Err(ApprovalRefusal::NotACommitment(_))) ==> !(is_hex(claim)
            && claim.len() == 64),
        !(is_hex(claim) && claim.len() == 64) ==> result is Err,
        result matches Err(ApprovalRefusal::OtherSweep { actual, claimed }) ==> claimed@
            == hex_bytes(claim) && actual@ != claimed@,
{
}

} // verus!
