//! Governance from one operator's side: what is staged, what is pending, and
//! what is submitted.
//!
//! Staging an approval performs nothing. It tells this operator's own signer
//! that it may sign one exact proposal.

use crate::glc::hex::{encode, hex_text};
use crate::hash::{sha256, sha256_digest};
use crate::ops::admin::{check_raise, AdminRefusal};
use crate::solana::instruction::{
    bridge_config_at, can_govern, execute_cap_raise_call, execute_rotation_call,
    propose_cap_raise_call, transfer_admin_call, try_execute_cap_raise_instruction,
    try_execute_rotation_instruction, try_propose_cap_raise_instruction,
    try_transfer_admin_instruction, Instruction,
};
use crate::solana::pubkey::{key_in, key_text, parse_key, Pubkey};
use crate::solana::rpc::{BridgeConfigSnapshot, PendingActionSnapshot, ValidatorSetSnapshot};
use crate::text::{
    decimal, decimal_int, lemma_shows_at_the_ends, lemma_shows_going_on, lemma_shows_more,
    lemma_shows_within, push_decimal, push_decimal_int, shows,
};
use crate::withdrawal::address::base58_text;
use vstd::prelude::*;

verus! {

/// Queues a new validator set.
pub const ACTION_PROPOSE_ROTATION: u8 = 3;

/// Cancels what is queued.
pub const ACTION_CANCEL_ROTATION: u8 = 4;

/// Queues a higher cap on the wrapped supply.
pub const ACTION_PROPOSE_TVL_RAISE: u8 = 5;

/// The actions that a signer can be told to approve.
pub const GOVERNANCE_ACTIONS: [u8; 3] = [
    ACTION_PROPOSE_ROTATION,
    ACTION_CANCEL_ROTATION,
    ACTION_PROPOSE_TVL_RAISE,
];

/// What a proposal commits to: the hash of its parameters.
pub fn commitment_of(params: &[u8]) -> (digest: [u8; 32])
    ensures
        digest@ == sha256(params@),
{
    sha256_digest(params)
}

/// What this operator's signer may sign.
#[derive(Debug, PartialEq, Eq)]
pub struct Approval {
    pub action: u8,
    pub params_commitment: [u8; 32],
    pub epoch: u64,
    pub expiry_unix: i64,
    /// Why the operator approved.
    pub note: String,
}

/// Approves one exact proposal, for a limited time.
pub fn approve(action: u8, params: &[u8], epoch: u64, now: i64, ttl_seconds: i64, note: String) -> (approval:
    Approval)
    requires
        i64::MIN <= now + ttl_seconds <= i64::MAX,
    ensures
        approval.action == action,
        approval.params_commitment@ == sha256(params@),
        approval.epoch == epoch,
        approval.expiry_unix == now + ttl_seconds,
        approval.note == note,
{
    Approval {
        action,
        params_commitment: commitment_of(params),
        epoch,
        expiry_unix: now + ttl_seconds,
        note,
    }
}

impl Approval {
    /// Whether an approval is no longer in force. It is in force up to and at
    /// its expiry.
    pub open spec fn expired(self, now: int) -> bool {
        now > self.expiry_unix
    }

    /// The lines that show an approval.
    pub open spec fn text(self, now: int) -> Seq<char> {
        "action "@ + decimal(self.action as nat) + " epoch "@ + decimal(self.epoch as nat) + (
        if self.expired(now) {
            " EXPIRED"@
        } else {
            " valid"@
        }) + " commitment "@ + hex_text(self.params_commitment@) + "\n  note: "@ + self.note@ + "\n"@
    }

    fn copy(&self) -> (copy: Self)
        ensures
            copy == *self,
    {
        Approval {
            action: self.action,
            params_commitment: self.params_commitment,
            epoch: self.epoch,
            expiry_unix: self.expiry_unix,
            note: self.note.clone(),
        }
    }

    fn push_text(&self, out: &mut String, now: i64)
        ensures
            final(out)@ == old(out)@ + self.text(now as int),
    {
        out.append("action ");
        push_decimal(out, self.action as u64);
        out.append(" epoch ");
        push_decimal(out, self.epoch);
        if now > self.expiry_unix {
            out.append(" EXPIRED");
        } else {
            out.append(" valid");
        }
        out.append(" commitment ");
        out.append(encode(&self.params_commitment).as_str());
        out.append("\n  note: ");
        out.append(self.note.as_str());
        out.append("\n");
        assert(out@ =~= old(out)@ + self.text(now as int));
    }
}

/// The approvals that this operator has staged: at most one for an action.
#[derive(Debug, PartialEq, Eq)]
pub struct ApprovalStore {
    pub approvals: Vec<Approval>,
}

/// The approval for an action.
pub open spec fn approval_for(approvals: Seq<Approval>, action: u8) -> Option<Approval>
    decreases approvals.len(),
{
    if approvals.len() == 0 {
        None
    } else if approvals[0].action == action {
        Some(approvals[0])
    } else {
        approval_for(approvals.drop_first(), action)
    }
}

/// Where the approval for an action is.
proof fn lemma_approval_at(approvals: Seq<Approval>, i: int)
    requires
        0 <= i < approvals.len(),
        forall|j: int| 0 <= j < i ==> (#[trigger] approvals[j]).action != approvals[i].action,
    ensures
        approval_for(approvals, approvals[i].action) == Some(approvals[i]),
    decreases approvals.len(),
{
    if i > 0 {
        let rest = approvals.drop_first();
        assert(approvals[0].action != approvals[i].action);
        assert forall|j: int| 0 <= j < i - 1 implies (#[trigger] rest[j]).action
            != rest[i - 1].action by {
            assert(rest[j] == approvals[j + 1]);
        }
        lemma_approval_at(rest, i - 1);
    }
}

/// Replacing an approval by another for the same action changes nothing for
/// the other actions.
proof fn lemma_replaced(approvals: Seq<Approval>, i: int, new: Approval, action: u8)
    requires
        0 <= i < approvals.len(),
        approvals[i].action == new.action,
        action != new.action,
    ensures
        approval_for(approvals.update(i, new), action) == approval_for(approvals, action),
    decreases approvals.len(),
{
    if i == 0 {
        assert(approvals.update(0, new).drop_first() =~= approvals.drop_first());
    } else {
        assert(approvals.update(i, new).drop_first() =~= approvals.drop_first().update(i - 1, new));
        lemma_replaced(approvals.drop_first(), i - 1, new, action);
    }
}

/// Appending an approval changes nothing for the actions that have one.
proof fn lemma_appended(approvals: Seq<Approval>, new: Approval, action: u8)
    ensures
        approval_for(approvals.push(new), action) == match approval_for(approvals, action) {
            Some(a) => Some(a),
            None => if new.action == action {
                Some(new)
            } else {
                None
            },
        },
    decreases approvals.len(),
{
    if approvals.len() == 0 {
        let one = approvals.push(new);
        assert(one.drop_first() =~= Seq::empty());
        assert(approval_for(one.drop_first(), action) is None);
    } else {
        assert(approvals.push(new).drop_first() =~= approvals.drop_first().push(new));
        lemma_appended(approvals.drop_first(), new, action);
    }
}

impl ApprovalStore {
    /// What is staged for an action.
    pub open spec fn staged(self, action: u8) -> Option<Approval> {
        approval_for(self.approvals@, action)
    }

    /// A store in which nothing is staged.
    pub fn new() -> (store: Self)
        ensures
            forall|action: u8| #[trigger] store.staged(action) is None,
            store.approvals@.len() == 0,
    {
        ApprovalStore { approvals: Vec::new() }
    }

    /// Whether nothing is staged.
    pub fn is_empty(&self) -> (empty: bool)
        ensures
            empty == (self.approvals@.len() == 0),
    {
        self.approvals.len() == 0
    }

    /// What is staged for an action.
    pub fn get(&self, action: u8) -> (found: Option<&Approval>)
        ensures
            match found {
                Some(a) => self.staged(action) == Some(*a),
                None => self.staged(action) is None,
            },
    {
        let mut i: usize = 0;
        assert(self.approvals@.skip(0) =~= self.approvals@);
        while i < self.approvals.len()
            invariant
                i <= self.approvals@.len(),
                self.staged(action) == approval_for(self.approvals@.skip(i as int), action),
            decreases self.approvals@.len() - i,
        {
            if self.approvals[i].action == action {
                return Some(&self.approvals[i]);
            }
            assert(self.approvals@.skip(i as int).drop_first() =~= self.approvals@.skip(i + 1));
            i = i + 1;
        }
        None
    }

    /// Stages an approval. It takes the place of the one for the same action.
    pub fn stage(&mut self, approval: Approval)
        ensures
            final(self).staged(approval.action) == Some(approval),
            forall|action: u8|
                action != approval.action ==> #[trigger] final(self).staged(action) == old(
                    self,
                ).staged(action),
    {
        let ghost before = self.approvals@;
        let ghost new = approval;
        let mut i: usize = 0;
        while i < self.approvals.len()
            invariant
                i <= self.approvals@.len(),
                self.approvals@ == before,
                before == old(self).approvals@,
                approval == new,
                forall|j: int| 0 <= j < i ==> (#[trigger] before[j]).action != new.action,
            decreases self.approvals@.len() - i,
        {
            if self.approvals[i].action == approval.action {
                self.approvals.set(i, approval);
                proof {
                    let after = self.approvals@;
                    assert(after =~= before.update(i as int, new));
                    lemma_approval_at(after, i as int);
                    assert forall|action: u8| action != new.action implies #[trigger] self.staged(
                        action,
                    ) == old(self).staged(action) by {
                        lemma_replaced(before, i as int, new, action);
                    }
                }
                return ;
            }
            i = i + 1;
        }
        self.approvals.push(approval);
        proof {
            assert(self.approvals@ =~= before.push(new));
            lemma_approval_at(self.approvals@, before.len() as int);
            assert forall|action: u8| action != new.action implies #[trigger] self.staged(action)
                == old(self).staged(action) by {
                lemma_appended(before, new, action);
            }
        }
    }

    /// The lines that show what is staged for the first `n` actions.
    pub open spec fn shown(self, now: int, n: nat) -> Seq<char>
        decreases n,
    {
        if n == 0 {
            Seq::empty()
        } else {
            self.shown(now, (n - 1) as nat) + match self.staged(GOVERNANCE_ACTIONS@[n - 1]) {
                Some(a) => a.text(now),
                None => Seq::empty(),
            }
        }
    }

    /// The lines that show what is staged.
    pub fn list_approvals(&self, now: i64) -> (text: String)
        ensures
            text@ == if self.approvals@.len() == 0 {
                "no approvals staged — this signer will refuse every governance request\n"@
            } else {
                self.shown(now as int, 3)
            },
    {
        if self.is_empty() {
            return String::from_str(
                "no approvals staged — this signer will refuse every governance request\n",
            );
        }
        let mut out: String = String::new();
        let mut i: usize = 0;
        while i < 3
            invariant
                i <= 3,
                out@ == self.shown(now as int, i as nat),
            decreases 3 - i,
        {
            let ghost before = out@;
            match self.get(GOVERNANCE_ACTIONS[i]) {
                Some(a) => {
                    a.push_text(&mut out, now);
                },
                None => {},
            }
            i = i + 1;
            assert(out@ =~= self.shown(now as int, i as nat));
        }
        out
    }

    /// The store without the approval for one action. Nothing else changes for
    /// the actions that a signer can approve.
    pub fn revoke_approval(&self, action: u8) -> (kept: Self)
        ensures
            kept.staged(action) is None,
            forall|other: u8|
                other != action && GOVERNANCE_ACTIONS@.contains(other) ==> #[trigger] kept.staged(
                    other,
                ) == self.staged(other),
            forall|other: u8|
                !GOVERNANCE_ACTIONS@.contains(other) ==> #[trigger] kept.staged(other) is None,
    {
        let mut kept: ApprovalStore = ApprovalStore::new();
        let mut i: usize = 0;
        while i < 3
            invariant
                i <= 3,
                forall|other: u8| #[trigger]
                    kept.staged(other) == if other != action && GOVERNANCE_ACTIONS@.take(
                        i as int,
                    ).contains(other) {
                        self.staged(other)
                    } else {
                        None
                    },
            decreases 3 - i,
        {
            let a: u8 = GOVERNANCE_ACTIONS[i];
            let ghost taken = GOVERNANCE_ACTIONS@.take(i as int);
            let ghost more = GOVERNANCE_ACTIONS@.take(i + 1);
            proof {
                assert(more =~= taken.push(a));
                assert forall|other: u8| more.contains(other) <==> (taken.contains(other) || other
                    == a) by {
                    assert(more[i as int] == a);
                    if taken.contains(other) {
                        let k = choose|k: int| 0 <= k < taken.len() && taken[k] == other;
                        assert(more[k] == other);
                    }
                    if more.contains(other) && other != a {
                        let k = choose|k: int| 0 <= k < more.len() && more[k] == other;
                        assert(taken[k] == other);
                    }
                }
            }
            if a != action {
                match self.get(a) {
                    Some(existing) => {
                        assert(self.staged(a) == Some(*existing));
                        proof {
                            lemma_approval_action(self.approvals@, a);
                        }
                        kept.stage(existing.copy());
                    },
                    None => {},
                }
            }
            i = i + 1;
        }
        assert(GOVERNANCE_ACTIONS@.take(3) =~= GOVERNANCE_ACTIONS@);
        kept
    }
}

proof fn lemma_approval_action(approvals: Seq<Approval>, action: u8)
    ensures
        approval_for(approvals, action) matches Some(a) ==> a.action == action,
    decreases approvals.len(),
{
    if approvals.len() > 0 && approvals[0].action != action {
        lemma_approval_action(approvals.drop_first(), action);
    }
}

/// Some keys, one to a line, each with its place in the federation.
pub open spec fn listed_keys(indent: Seq<char>, keys: Seq<Pubkey>) -> Seq<char>
    decreases keys.len(),
{
    if keys.len() == 0 {
        Seq::empty()
    } else {
        listed_keys(indent, keys.drop_last()) + indent + "["@ + decimal((keys.len() - 1) as nat)
            + "] "@ + base58_text(keys.last()@) + "\n"@
    }
}

fn push_keys(out: &mut String, indent: &str, keys: &[Pubkey])
    ensures
        final(out)@ == old(out)@ + listed_keys(indent@, keys@),
{
    let ghost before = out@;
    let mut i: usize = 0;
    assert(before + listed_keys(indent@, keys@.take(0)) =~= before);
    while i < keys.len()
        invariant
            i <= keys@.len(),
            out@ == before + listed_keys(indent@, keys@.take(i as int)),
        decreases keys@.len() - i,
    {
        out.append(indent);
        out.append("[");
        push_decimal(out, i as u64);
        out.append("] ");
        out.append(key_text(&keys[i]).as_str());
        out.append("\n");
        i = i + 1;
        proof {
            let taken = keys@.take(i as int);
            assert(taken.drop_last() =~= keys@.take(i - 1));
            assert(out@ =~= before + listed_keys(indent@, taken));
        }
    }
    assert(keys@.take(keys@.len() as int) =~= keys@);
}

/// What an action is called.
pub open spec fn action_name(action: u8) -> Seq<char> {
    if action == ACTION_PROPOSE_ROTATION {
        "validator rotation"@
    } else if action == ACTION_PROPOSE_TVL_RAISE {
        "wrapped-supply cap raise"@
    } else {
        "unrecognised"@
    }
}

/// What is left of a timelock. An action can be executed at its eta and after.
pub open spec fn timelock_text(eta: int, now: int) -> Seq<char> {
    if now >= eta {
        "timelock elapsed — executable now"@
    } else {
        decimal_int(eta - now) + " seconds remaining"@
    }
}

/// What an operator reads of the pending action.
pub open spec fn pending_text(pending: Option<PendingActionSnapshot>, now: int) -> Seq<char> {
    match pending {
        None => "no governance action is pending\n"@,
        Some(p) => "pending governance action\n  action:   "@ + decimal(p.action as nat) + " ("@
            + action_name(p.action) + ")\n  epoch:    "@ + decimal(p.proposed_under_epoch as nat)
            + "\n  eta:      "@ + decimal_int(p.eta as int) + " ("@ + timelock_text(
            p.eta as int,
            now,
        ) + ")\n"@ + (if p.action == ACTION_PROPOSE_ROTATION {
            "  threshold: "@ + decimal(p.threshold as nat) + " of "@ + decimal(p.validators@.len())
                + "\n"@ + listed_keys("    "@, p.validators@)
        } else if p.action == ACTION_PROPOSE_TVL_RAISE {
            "  new ceiling: "@ + decimal(p.proposed_max_wrapped_supply as nat) + "\n"@
        } else {
            Seq::empty()
        }),
    }
}

/// What an operator reads of the pending action.
pub fn show_pending(pending: &Option<PendingActionSnapshot>, now: i64) -> (text: String)
    ensures
        text@ == pending_text(*pending, now as int),
{
    let p: &PendingActionSnapshot = match pending {
        None => {
            return String::from_str("no governance action is pending\n");
        },
        Some(p) => p,
    };
    let mut out: String = String::from_str("pending governance action\n  action:   ");
    push_decimal(&mut out, p.action as u64);
    out.append(" (");
    if p.action == ACTION_PROPOSE_ROTATION {
        out.append("validator rotation");
    } else if p.action == ACTION_PROPOSE_TVL_RAISE {
        out.append("wrapped-supply cap raise");
    } else {
        out.append("unrecognised");
    }
    out.append(")\n  epoch:    ");
    push_decimal(&mut out, p.proposed_under_epoch);
    out.append("\n  eta:      ");
    push_decimal_int(&mut out, p.eta);
    out.append(" (");
    if now >= p.eta {
        out.append("timelock elapsed — executable now");
    } else {
        push_decimal(&mut out, (p.eta as i128 - now as i128) as u64);
        out.append(" seconds remaining");
    }
    out.append(")\n");
    if p.action == ACTION_PROPOSE_ROTATION {
        out.append("  threshold: ");
        push_decimal(&mut out, p.threshold as u64);
        out.append(" of ");
        push_decimal(&mut out, p.validators.len() as u64);
        out.append("\n");
        push_keys(&mut out, "    ", p.validators.as_slice());
    } else if p.action == ACTION_PROPOSE_TVL_RAISE {
        out.append("  new ceiling: ");
        push_decimal(&mut out, p.proposed_max_wrapped_supply);
        out.append("\n");
    }
    assert(out@ =~= pending_text(*pending, now as int));
    out
}

/// What an operator reads of who runs the bridge and whether it runs.
pub open spec fn control_text(program_id: Pubkey, c: BridgeConfigSnapshot) -> Seq<char> {
    "bridge config ("@ + base58_text(program_id@) + ")\n  protocol version: "@ + decimal(
        c.protocol_version as nat,
    ) + "\n  admin:            "@ + base58_text(c.admin@) + "\n  pending admin:    "@ + (
    match c.pending_admin {
        Some(p) => base58_text(p@) + " — a handover is IN FLIGHT"@,
        None => "none"@,
    }) + "\n  paused:           "@ + (if c.paused {
        "YES"@
    } else {
        "no"@
    }) + "\n  wrapped mint:     "@ + (if c.wrapped_mint@ != Seq::new(32, |i: int| 0u8) {
        base58_text(c.wrapped_mint@)
    } else {
        "NOT YET CREATED — minting is impossible until `create-wrapped-mint` runs"@
    })
}

/// What an operator reads of the bounds on the bridge.
pub open spec fn bounds_text(c: BridgeConfigSnapshot) -> Seq<char> {
    "\n  governance timelock: "@ + decimal_int(c.governance_timelock_seconds as int)
        + "s\n  max wrapped supply:  "@ + decimal(c.max_wrapped_supply as nat)
        + " atomic\n  min deposit/withdrawal: "@ + decimal(c.min_deposit as nat) + "/"@ + decimal(
        c.min_withdrawal as nat,
    ) + "\n  withdrawals so far:  "@ + decimal(c.withdrawal_count as nat)
}

/// What an operator reads of the validators.
pub open spec fn set_text(set: ValidatorSetSnapshot) -> Seq<char> {
    "\n\nvalidator set (epoch "@ + decimal(set.epoch as nat) + ")\n  threshold: "@ + decimal(
        set.threshold as nat,
    ) + " of "@ + decimal(set.validators@.len()) + "\n"@ + listed_keys("  "@, set.validators@)
}

/// What an operator reads of the bridge and its validators.
pub open spec fn config_text(
    program_id: Pubkey,
    c: BridgeConfigSnapshot,
    set: ValidatorSetSnapshot,
) -> Seq<char> {
    control_text(program_id, c) + bounds_text(c) + set_text(set)
}

/// Who runs the bridge, and whether it runs.
fn show_control(program_id: &Pubkey, c: &BridgeConfigSnapshot) -> (out: String)
    ensures
        out@ == control_text(*program_id, *c),
{
    let mut out: String = String::from_str("bridge config (");
    out.append(key_text(program_id).as_str());
    out.append(")\n  protocol version: ");
    push_decimal(&mut out, c.protocol_version as u64);
    out.append("\n  admin:            ");
    out.append(key_text(&c.admin).as_str());
    out.append("\n  pending admin:    ");
    match &c.pending_admin {
        Some(p) => {
            out.append(key_text(p).as_str());
            out.append(" — a handover is IN FLIGHT");
        },
        None => {
            out.append("none");
        },
    }
    out.append("\n  paused:           ");
    if c.paused {
        out.append("YES");
    } else {
        out.append("no");
    }
    out.append("\n  wrapped mint:     ");
    if c.mint_is_configured() {
        out.append(key_text(&c.wrapped_mint).as_str());
    } else {
        out.append("NOT YET CREATED — minting is impossible until `create-wrapped-mint` runs");
    }
    assert(out@ =~= control_text(*program_id, *c));
    out
}

/// The bounds on the bridge.
fn show_bounds(c: &BridgeConfigSnapshot) -> (out: String)
    ensures
        out@ == bounds_text(*c),
{
    let mut out: String = String::from_str("\n  governance timelock: ");
    push_decimal_int(&mut out, c.governance_timelock_seconds);
    out.append("s\n  max wrapped supply:  ");
    push_decimal(&mut out, c.max_wrapped_supply);
    out.append(" atomic\n  min deposit/withdrawal: ");
    push_decimal(&mut out, c.min_deposit);
    out.append("/");
    push_decimal(&mut out, c.min_withdrawal);
    out.append("\n  withdrawals so far:  ");
    push_decimal(&mut out, c.withdrawal_count);
    assert(out@ =~= bounds_text(*c));
    out
}

/// What an operator reads of the bridge and its validators. Every value in it
/// is a decision without a default, so it is confirmed by reading it back.
pub fn show_config(
    program_id: &Pubkey,
    c: &BridgeConfigSnapshot,
    set: &ValidatorSetSnapshot,
) -> (text: String)
    ensures
        text@ == config_text(*program_id, *c, *set),
{
    let mut out: String = show_control(program_id, c);
    out.append(show_bounds(c).as_str());
    out.append("\n\nvalidator set (epoch ");
    push_decimal(&mut out, set.epoch);
    out.append(")\n  threshold: ");
    push_decimal(&mut out, set.threshold as u64);
    out.append(" of ");
    push_decimal(&mut out, set.validators.len() as u64);
    out.append("\n");
    push_keys(&mut out, "  ", set.validators.as_slice());
    assert(out@ =~= config_text(*program_id, *c, *set));
    out
}

/// The call that proposes a higher cap. Nothing where an address that it needs
/// does not exist.
pub fn submit_tvl_raise(program_id: &Pubkey, proposer: &Pubkey, new_max: u64) -> (result: Result<
    Option<Instruction>,
    AdminRefusal,
>)
    ensures
        match result {
            Ok(Some(ix)) => new_max > 0 && can_govern(program_id@) && ix@
                == propose_cap_raise_call(program_id@, proposer@, new_max),
            Ok(None) => new_max > 0 && !can_govern(program_id@),
            Err(e) => new_max == 0 && e == AdminRefusal::ZeroCap,
        },
{
    match check_raise(new_max) {
        Ok(_) => Ok(try_propose_cap_raise_instruction(program_id, proposer, new_max)),
        Err(e) => Err(e),
    }
}

/// The action that is executed by one of the two commands that execute one.
pub fn queued_action(cap_raise: bool) -> (action: u8)
    ensures
        action == if cap_raise {
            ACTION_PROPOSE_TVL_RAISE
        } else {
            ACTION_PROPOSE_ROTATION
        },
{
    if cap_raise {
        ACTION_PROPOSE_TVL_RAISE
    } else {
        ACTION_PROPOSE_ROTATION
    }
}

/// The call that executes what is queued. It needs no signatures but that of
/// whoever pays: the proposal was the authorisation.
pub fn execute_queued(program_id: &Pubkey, payer: &Pubkey, cap_raise: bool) -> (result: Option<
    Instruction,
>)
    ensures
        match result {
            Some(ix) => can_govern(program_id@) && ix@ == if cap_raise {
                execute_cap_raise_call(program_id@, payer@)
            } else {
                execute_rotation_call(program_id@, payer@)
            },
            None => !can_govern(program_id@),
        },
{
    if cap_raise {
        try_execute_cap_raise_instruction(program_id, payer)
    } else {
        try_execute_rotation_instruction(program_id, payer)
    }
}

/// The call that nominates the key that an operator types. Nothing changes
/// until that key accepts.
pub fn transfer_admin(program_id: &Pubkey, admin: &Pubkey, new_admin: &str) -> (result: Result<
    Option<Instruction>,
    AdminRefusal,
>)
    ensures
        match (key_in(new_admin@), result) {
            (Err(why), Err(AdminRefusal::NewAdminNotAKey(w))) => w@ == why,
            (Ok(key), Ok(Some(ix))) => bridge_config_at(program_id@) is Some && ix@
                == transfer_admin_call(program_id@, admin@, key),
            (Ok(_), Ok(None)) => bridge_config_at(program_id@) is None,
            _ => false,
        },
{
    match parse_key(new_admin) {
        Ok(key) => Ok(try_transfer_admin_instruction(program_id, admin, &key)),
        Err(why) => Err(AdminRefusal::NewAdminNotAKey(why)),
    }
}

/// What is staged for an action is the first approval of it, and nothing is
/// where there is none.
pub proof fn what_is_staged_is_for_its_action(approvals: Seq<Approval>, action: u8)
    ensures
        approval_for(approvals, action) is None <==> forall|i: int|
            0 <= i < approvals.len() ==> (#[trigger] approvals[i]).action != action,
        approval_for(approvals, action) matches Some(a) ==> a.action == action && exists|i: int|
            0 <= i < approvals.len() && #[trigger] approvals[i] == a,
    decreases approvals.len(),
{
    if approvals.len() > 0 {
        let rest = approvals.drop_first();
        what_is_staged_is_for_its_action(rest, action);
        if approvals[0].action == action {
            assert(approvals[0] == approval_for(approvals, action)->0);
        } else if approval_for(rest, action) is Some {
            let i = choose|i: int|
                0 <= i < rest.len() && #[trigger] rest[i] == approval_for(rest, action)->0;
            assert(approvals[i + 1] == rest[i]);
        } else {
            assert forall|i: int| 0 <= i < approvals.len() implies (#[trigger] approvals[i]).action
                != action by {
                if i > 0 {
                    assert(approvals[i] == rest[i - 1]);
                }
            }
        }
    }
}

/// An approval is in force up to and at its expiry and never after, whatever the
/// time it was made for.
pub proof fn an_approval_is_in_force_until_its_expiry(approval: Approval, now: int)
    ensures
        approval.expired(now) <==> approval.expiry_unix < now,
        approval.expired(now) ==> shows(approval.text(now), " EXPIRED"@),
        !approval.expired(now) ==> shows(approval.text(now), " valid"@),
        shows(approval.text(now), hex_text(approval.params_commitment@)),
        shows(approval.text(now), approval.note@),
{
    let head = "action "@ + decimal(approval.action as nat) + " epoch "@ + decimal(
        approval.epoch as nat,
    );
    let state = if now > approval.expiry_unix {
        " EXPIRED"@
    } else {
        " valid"@
    };
    let commitment = hex_text(approval.params_commitment@);
    let text = approval.text(now);
    let tail = " commitment "@ + commitment + "\n  note: "@ + approval.note@ + "\n"@;
    lemma_shows_within(head, state, tail);
    assert(head + state + tail =~= text);
    let note = "\n  note: "@ + approval.note@ + "\n"@;
    lemma_shows_within(head + state + " commitment "@, commitment, note);
    assert(head + state + " commitment "@ + commitment + note =~= text);
    lemma_shows_within(
        head + state + " commitment "@ + commitment + "\n  note: "@,
        approval.note@,
        "\n"@,
    );
}

/// Everything that is staged for an action that a signer can be told to approve
/// is shown.
pub proof fn what_is_staged_is_shown(store: ApprovalStore, now: int, i: int)
    requires
        0 <= i < 3,
        store.staged(GOVERNANCE_ACTIONS@[i]) is Some,
    ensures
        shows(store.shown(now, 3), store.staged(GOVERNANCE_ACTIONS@[i])->0.text(now)),
{
    lemma_shown(store, now, i, 3);
}

proof fn lemma_shown(store: ApprovalStore, now: int, i: int, n: nat)
    requires
        0 <= i < n,
        store.staged(GOVERNANCE_ACTIONS@[i]) is Some,
    ensures
        shows(store.shown(now, n), store.staged(GOVERNANCE_ACTIONS@[i])->0.text(now)),
    decreases n,
{
    let part = store.staged(GOVERNANCE_ACTIONS@[i])->0.text(now);
    let before = store.shown(now, (n - 1) as nat);
    let last = match store.staged(GOVERNANCE_ACTIONS@[n - 1]) {
        Some(a) => a.text(now),
        None => Seq::empty(),
    };
    if i == n - 1 {
        lemma_shows_within(before, part, Seq::empty());
        assert(before + part + Seq::empty() =~= store.shown(now, n));
    } else {
        lemma_shown(store, now, i, (n - 1) as nat);
        lemma_shows_more(Seq::empty(), before, last, part);
        assert(Seq::<char>::empty() + before + last =~= store.shown(now, n));
    }
}

/// A pending action can be executed at its eta and after, and until then what is
/// left is what is missing to it.
pub proof fn a_timelock_is_counted_down_to_its_eta(eta: int, now: int, left: nat)
    ensures
        now >= eta ==> timelock_text(eta, now) == "timelock elapsed — executable now"@,
        now < eta && now + left == eta ==> timelock_text(eta, now) == decimal(left)
            + " seconds remaining"@,
{
}

/// A line that is put together piece by piece holds what its pieces make up.
proof fn lemma_line(
    before: Seq<char>,
    indent: Seq<char>,
    a: Seq<char>,
    b: Seq<char>,
    c: Seq<char>,
    d: Seq<char>,
    e: Seq<char>,
)
    ensures
        before + indent + a + b + c + d + e == (before + indent) + (a + b + c + d + e)
            + Seq::empty(),
        before + indent + a + b + c + d + e == Seq::<char>::empty() + before + (indent + a + b + c
            + d + e),
{
    assert(before + indent + a + b + c + d + e =~= (before + indent) + (a + b + c + d + e)
        + Seq::empty());
    assert(before + indent + a + b + c + d + e =~= Seq::<char>::empty() + before + (indent + a + b
        + c + d + e));
}

/// Every key of a list is shown, with its place in the federation.
pub proof fn every_key_is_shown_with_its_place(indent: Seq<char>, keys: Seq<Pubkey>, i: int)
    requires
        0 <= i < keys.len(),
    ensures
        shows(
            listed_keys(indent, keys),
            "["@ + decimal(i as nat) + "] "@ + base58_text(keys[i]@) + "\n"@,
        ),
    decreases keys.len(),
{
    let part = "["@ + decimal(i as nat) + "] "@ + base58_text(keys[i]@) + "\n"@;
    let front = keys.drop_last();
    let before = listed_keys(indent, front);
    let place = decimal((keys.len() - 1) as nat);
    let key = base58_text(keys.last()@);
    lemma_line(before, indent, "["@, place, "] "@, key, "\n"@);
    if i == keys.len() - 1 {
        lemma_shows_within(before + indent, part, Seq::empty());
    } else {
        every_key_is_shown_with_its_place(indent, front, i);
        assert(front[i] == keys[i]);
        lemma_shows_more(
            Seq::empty(),
            before,
            indent + "["@ + place + "] "@ + key + "\n"@,
            part,
        );
    }
}

/// An approval is of the action, the parameters and the epoch that are given, and
/// lasts as long as it is said to.
pub proof fn an_approval_is_of_one_proposal(
    action: u8,
    params: &[u8],
    epoch: u64,
    now: i64,
    ttl_seconds: i64,
    note: String,
    approval: Approval,
)
    requires
        i64::MIN <= now + ttl_seconds <= i64::MAX,
        call_ensures(approve, (action, params, epoch, now, ttl_seconds, note), approval),
    ensures
        approval.action == action,
        approval.params_commitment@ == sha256(params@),
        approval.epoch == epoch,
        approval.note == note,
        approval.expiry_unix - now == ttl_seconds,
        ttl_seconds >= 0 ==> !approval.expired(now as int),
        approval.expired(now + ttl_seconds + 1),
{
}

/// The call that executes what is queued is that of the kind that was asked for,
/// wherever its addresses exist.
pub proof fn an_execution_is_of_its_own_kind(
    program_id: Pubkey,
    payer: Pubkey,
    raise: Option<Instruction>,
    rotation: Option<Instruction>,
    raise_action: u8,
    rotation_action: u8,
)
    requires
        call_ensures(execute_queued, (&program_id, &payer, true), raise),
        call_ensures(execute_queued, (&program_id, &payer, false), rotation),
        call_ensures(queued_action, (true,), raise_action),
        call_ensures(queued_action, (false,), rotation_action),
    ensures
        raise is Some <==> can_govern(program_id@),
        rotation is Some <==> can_govern(program_id@),
        raise matches Some(ix) ==> ix@ == execute_cap_raise_call(program_id@, payer@),
        rotation matches Some(ix) ==> ix@ == execute_rotation_call(program_id@, payer@),
        raise_action == 5,
        rotation_action == 3,
{
}

/// A raise is proposed exactly where it is to something, and the admin role is
/// offered exactly to a key. Only a missing address is in the way of either.
pub proof fn a_proposal_needs_what_it_proposes(
    program_id: Pubkey,
    proposer: Pubkey,
    new_max: u64,
    raise: Result<Option<Instruction>, AdminRefusal>,
    new_admin: &str,
    offer: Result<Option<Instruction>, AdminRefusal>,
)
    requires
        call_ensures(submit_tvl_raise, (&program_id, &proposer, new_max), raise),
        call_ensures(transfer_admin, (&program_id, &proposer, new_admin), offer),
    ensures
        raise is Ok <==> new_max > 0,
        (raise matches Ok(Some(_))) <==> new_max > 0 && can_govern(program_id@),
        raise matches Ok(Some(ix)) ==> ix@ == propose_cap_raise_call(
            program_id@,
            proposer@,
            new_max,
        ),
        offer is Ok <==> key_in(new_admin@) is Ok,
        (offer matches Ok(Some(_))) <==> key_in(new_admin@) is Ok && bridge_config_at(
            program_id@,
        ) is Some,
        offer matches Ok(Some(ix)) ==> ix@ == transfer_admin_call(
            program_id@,
            proposer@,
            key_in(new_admin@)->Ok_0,
        ),
{
}

/// What an operator reads of a pending action says what is proposed: the validators
/// of a rotation and its threshold, or the cap of a raise.
pub proof fn a_pending_action_is_shown_with_what_it_proposes(
    p: PendingActionSnapshot,
    now: int,
    i: int,
)
    ensures
        p.action == 5 ==> shows(
            pending_text(Some(p), now),
            decimal(p.proposed_max_wrapped_supply as nat),
        ),
        p.action == 3 && 0 <= i < p.validators@.len() ==> shows(
            pending_text(Some(p), now),
            "["@ + decimal(i as nat) + "] "@ + base58_text(p.validators@[i]@) + "\n"@,
        ),
        shows(pending_text(Some(p), now), timelock_text(p.eta as int, now)),
{
    let head = "pending governance action\n  action:   "@ + decimal(p.action as nat) + " ("@
        + action_name(p.action) + ")\n  epoch:    "@ + decimal(p.proposed_under_epoch as nat)
        + "\n  eta:      "@ + decimal_int(p.eta as int) + " ("@;
    let lock = timelock_text(p.eta as int, now);
    let tail = if p.action == ACTION_PROPOSE_ROTATION {
        "  threshold: "@ + decimal(p.threshold as nat) + " of "@ + decimal(p.validators@.len())
            + "\n"@ + listed_keys("    "@, p.validators@)
    } else if p.action == ACTION_PROPOSE_TVL_RAISE {
        "  new ceiling: "@ + decimal(p.proposed_max_wrapped_supply as nat) + "\n"@
    } else {
        Seq::empty()
    };
    assert(pending_text(Some(p), now) == head + lock + ")\n"@ + tail);
    lemma_shows_at_the_ends(lock, head);
    lemma_shows_going_on(head + lock, lock, ")\n"@);
    lemma_shows_going_on(head + lock + ")\n"@, lock, tail);
    let upto = head + lock + ")\n"@;
    if p.action == ACTION_PROPOSE_TVL_RAISE {
        let cap = decimal(p.proposed_max_wrapped_supply as nat);
        lemma_shows_within("  new ceiling: "@, cap, "\n"@);
        lemma_shows_behind(upto, tail, cap);
    }
    if p.action == ACTION_PROPOSE_ROTATION && 0 <= i < p.validators@.len() {
        let keys = listed_keys("    "@, p.validators@);
        let part = "["@ + decimal(i as nat) + "] "@ + base58_text(p.validators@[i]@) + "\n"@;
        let title = "  threshold: "@ + decimal(p.threshold as nat) + " of "@ + decimal(
            p.validators@.len(),
        ) + "\n"@;
        every_key_is_shown_with_its_place("    "@, p.validators@, i);
        lemma_shows_behind(title, keys, part);
        lemma_shows_behind(upto, tail, part);
    }
}

proof fn lemma_shows_behind(before: Seq<char>, text: Seq<char>, part: Seq<char>)
    requires
        shows(text, part),
    ensures
        shows(before + text, part),
{
    lemma_shows_more(before, text, Seq::empty(), part);
    assert(before + text + Seq::empty() =~= before + text);
}

} // verus!
