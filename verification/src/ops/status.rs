//! What an operator wants first in an incident: what is stuck, and why.

use crate::ops::admin::AdminRefusal;
use crate::text::{
    chars_of, decimal, decimal_int, lemma_shows_more, lemma_shows_within, push_decimal,
    push_decimal_int, shows,
};
use vstd::prelude::*;

verus! {

/// How many records are in a state.
#[derive(Debug, PartialEq, Eq)]
pub struct StateCount {
    pub state: String,
    pub count: u64,
}

/// A deposit, as an operator looks at it.
#[derive(Debug, PartialEq, Eq)]
pub struct DepositSummary {
    pub id: i64,
    pub state: String,
    pub txid_hex: String,
    pub vout: i64,
    pub amount_atomic: u64,
    pub failure_reason: Option<String>,
}

/// A withdrawal, as an operator looks at it.
#[derive(Debug, PartialEq, Eq)]
pub struct WithdrawalSummary {
    pub withdrawal_index: i64,
    pub state: String,
    pub amount_atomic: u64,
    pub failure_reason: Option<String>,
}

/// The outputs of the vault that can be spent.
#[derive(Debug, Clone, Copy, PartialEq, Eq, Structural)]
pub struct VaultStats {
    pub outputs: u64,
    pub total_atomic: u64,
}

/// Why a record failed, or a word for that nothing says why.
pub open spec fn reason_text(reason: Option<String>, unknown: Seq<char>) -> Seq<char> {
    match reason {
        Some(why) => why@,
        None => unknown,
    }
}

/// A text with spaces behind it, up to the given width.
pub open spec fn padded_right(text: Seq<char>, width: nat) -> Seq<char> {
    text + Seq::new(
        if text.len() < width {
            (width - text.len()) as nat
        } else {
            0
        },
        |i: int| ' ',
    )
}

/// How many records are in which state, a line each.
pub open spec fn counts_text(counts: Seq<StateCount>) -> Seq<char>
    decreases counts.len(),
{
    if counts.len() == 0 {
        Seq::empty()
    } else {
        counts_text(counts.drop_last()) + "  "@ + padded_right(counts.last().state@, 20) + " "@
            + decimal(counts.last().count as nat) + "\n"@
    }
}

/// A deposit that was halted, and why.
pub open spec fn deposit_text(d: DepositSummary) -> Seq<char> {
    "  id="@ + decimal_int(d.id as int) + " txid="@ + d.txid_hex@ + " vout="@ + decimal_int(
        d.vout as int,
    ) + " amount="@ + decimal(d.amount_atomic as nat) + "\n    reason: "@ + reason_text(
        d.failure_reason,
        "(none recorded)"@,
    ) + "\n"@
}

/// The deposits that were halted, and why.
pub open spec fn deposits_text(halted: Seq<DepositSummary>) -> Seq<char>
    decreases halted.len(),
{
    if halted.len() == 0 {
        Seq::empty()
    } else {
        deposits_text(halted.drop_last()) + deposit_text(halted.last())
    }
}

/// A withdrawal that was halted, and why.
pub open spec fn withdrawal_text(w: WithdrawalSummary) -> Seq<char> {
    "  index="@ + decimal_int(w.withdrawal_index as int) + " amount="@ + decimal(
        w.amount_atomic as nat,
    ) + "\n    reason: "@ + reason_text(w.failure_reason, "(none recorded)"@) + "\n"@
}

/// The withdrawals that were halted, and why.
pub open spec fn withdrawals_text(halted: Seq<WithdrawalSummary>) -> Seq<char>
    decreases halted.len(),
{
    if halted.len() == 0 {
        Seq::empty()
    } else {
        withdrawals_text(halted.drop_last()) + withdrawal_text(halted.last())
    }
}

/// Everything that needs a decision, or that nothing does.
pub open spec fn halts_text(
    deposits: Seq<DepositSummary>,
    withdrawals: Seq<WithdrawalSummary>,
) -> Seq<char> {
    (if deposits.len() == 0 {
        Seq::empty()
    } else {
        "\nHALTED DEPOSITS — each needs an explicit operator decision:\n"@ + deposits_text(deposits)
    }) + (if withdrawals.len() == 0 {
        Seq::empty()
    } else {
        "\nHALTED WITHDRAWALS:\n"@ + withdrawals_text(withdrawals)
    }) + (if deposits.len() == 0 && withdrawals.len() == 0 {
        "\nno integrity halts\n"@
    } else {
        Seq::empty()
    })
}

/// What the status command shows.
pub open spec fn status_text(
    deposits: Seq<StateCount>,
    withdrawals: Seq<StateCount>,
    vault: VaultStats,
    halted_deposits: Seq<DepositSummary>,
    halted_withdrawals: Seq<WithdrawalSummary>,
) -> Seq<char> {
    "deposits by state:\n"@ + counts_text(deposits) + "\nwithdrawals by state:\n"@ + counts_text(
        withdrawals,
    ) + "\nvault: "@ + decimal(vault.outputs as nat) + " available outputs, "@ + decimal(
        vault.total_atomic as nat,
    ) + " atomic units\n"@ + halts_text(halted_deposits, halted_withdrawals)
}

fn push_reason(out: &mut String, reason: &Option<String>, unknown: &str)
    ensures
        final(out)@ == old(out)@ + reason_text(*reason, unknown@),
{
    match reason {
        Some(why) => out.append(why.as_str()),
        None => out.append(unknown),
    }
}

fn push_padded(out: &mut String, text: &str, width: usize)
    ensures
        final(out)@ == old(out)@ + padded_right(text@, width as nat),
{
    let chars: Vec<char> = chars_of(text);
    out.append(text);
    let ghost head = out@;
    let mut i: usize = chars.len();
    assert(head =~= old(out)@ + text@);
    assert(out@ =~= head + Seq::new(0, |k: int| ' '));
    while i < width
        invariant
            chars@ == text@,
            chars@.len() <= i,
            i <= width || i == chars@.len(),
            out@ == head + Seq::new((i - chars@.len()) as nat, |k: int| ' '),
        decreases width - i,
    {
        out.push(' ');
        i = i + 1;
        assert(out@ =~= head + Seq::new((i - chars@.len()) as nat, |k: int| ' '));
    }
    assert(out@ =~= old(out)@ + padded_right(text@, width as nat));
}

fn push_counts(out: &mut String, counts: &[StateCount])
    ensures
        final(out)@ == old(out)@ + counts_text(counts@),
{
    let ghost head = out@;
    let mut i: usize = 0;
    assert(counts@.take(0) =~= Seq::empty());
    assert(out@ =~= head + counts_text(counts@.take(0)));
    while i < counts.len()
        invariant
            i <= counts@.len(),
            out@ == head + counts_text(counts@.take(i as int)),
        decreases counts@.len() - i,
    {
        let c: &StateCount = &counts[i];
        out.append("  ");
        push_padded(out, c.state.as_str(), 20);
        out.append(" ");
        push_decimal(out, c.count);
        out.append("\n");
        assert(counts@.take(i + 1).drop_last() =~= counts@.take(i as int));
        i = i + 1;
        assert(out@ =~= head + counts_text(counts@.take(i as int)));
    }
    assert(counts@.take(counts@.len() as int) =~= counts@);
}

fn push_deposit(out: &mut String, d: &DepositSummary)
    ensures
        final(out)@ == old(out)@ + deposit_text(*d),
{
    out.append("  id=");
    push_decimal_int(out, d.id);
    out.append(" txid=");
    out.append(d.txid_hex.as_str());
    out.append(" vout=");
    push_decimal_int(out, d.vout);
    out.append(" amount=");
    push_decimal(out, d.amount_atomic);
    out.append("\n    reason: ");
    push_reason(out, &d.failure_reason, "(none recorded)");
    out.append("\n");
    assert(out@ =~= old(out)@ + deposit_text(*d));
}

fn push_deposits(out: &mut String, halted: &[DepositSummary])
    ensures
        final(out)@ == old(out)@ + deposits_text(halted@),
{
    let ghost head = out@;
    let mut i: usize = 0;
    assert(halted@.take(0) =~= Seq::empty());
    assert(out@ =~= head + deposits_text(halted@.take(0)));
    while i < halted.len()
        invariant
            i <= halted@.len(),
            out@ == head + deposits_text(halted@.take(i as int)),
        decreases halted@.len() - i,
    {
        push_deposit(out, &halted[i]);
        assert(halted@.take(i + 1).drop_last() =~= halted@.take(i as int));
        i = i + 1;
        assert(out@ =~= head + deposits_text(halted@.take(i as int)));
    }
    assert(halted@.take(halted@.len() as int) =~= halted@);
}

fn push_withdrawal(out: &mut String, w: &WithdrawalSummary)
    ensures
        final(out)@ == old(out)@ + withdrawal_text(*w),
{
    out.append("  index=");
    push_decimal_int(out, w.withdrawal_index);
    out.append(" amount=");
    push_decimal(out, w.amount_atomic);
    out.append("\n    reason: ");
    push_reason(out, &w.failure_reason, "(none recorded)");
    out.append("\n");
    assert(out@ =~= old(out)@ + withdrawal_text(*w));
}

fn push_withdrawals(out: &mut String, halted: &[WithdrawalSummary])
    ensures
        final(out)@ == old(out)@ + withdrawals_text(halted@),
{
    let ghost head = out@;
    let mut i: usize = 0;
    assert(halted@.take(0) =~= Seq::empty());
    assert(out@ =~= head + withdrawals_text(halted@.take(0)));
    while i < halted.len()
        invariant
            i <= halted@.len(),
            out@ == head + withdrawals_text(halted@.take(i as int)),
        decreases halted@.len() - i,
    {
        push_withdrawal(out, &halted[i]);
        assert(halted@.take(i + 1).drop_last() =~= halted@.take(i as int));
        i = i + 1;
        assert(out@ =~= head + withdrawals_text(halted@.take(i as int)));
    }
    assert(halted@.take(halted@.len() as int) =~= halted@);
}

/// What the status command shows.
pub fn status(
    deposits: &[StateCount],
    withdrawals: &[StateCount],
    vault: VaultStats,
    halted_deposits: &[DepositSummary],
    halted_withdrawals: &[WithdrawalSummary],
) -> (text: String)
    ensures
        text@ == status_text(
            deposits@,
            withdrawals@,
            vault,
            halted_deposits@,
            halted_withdrawals@,
        ),
{
    let mut out: String = String::from_str("deposits by state:\n");
    push_counts(&mut out, deposits);
    out.append("\nwithdrawals by state:\n");
    push_counts(&mut out, withdrawals);
    out.append("\nvault: ");
    push_decimal(&mut out, vault.outputs);
    out.append(" available outputs, ");
    push_decimal(&mut out, vault.total_atomic);
    out.append(" atomic units\n");
    let ghost head = out@;
    if halted_deposits.len() > 0 {
        out.append("\nHALTED DEPOSITS — each needs an explicit operator decision:\n");
        push_deposits(&mut out, halted_deposits);
    }
    if halted_withdrawals.len() > 0 {
        out.append("\nHALTED WITHDRAWALS:\n");
        push_withdrawals(&mut out, halted_withdrawals);
    }
    if halted_deposits.len() == 0 && halted_withdrawals.len() == 0 {
        out.append("\nno integrity halts\n");
    }
    assert(out@ =~= head + halts_text(halted_deposits@, halted_withdrawals@));
    out
}

/// What an operator reads before a halted deposit is taken up again.
pub open spec fn deposit_change_text(id: i64, before: DepositSummary, to: Seq<char>) -> Seq<char> {
    "deposit "@ + decimal_int(id as int) + ": "@ + before.state@ + " -> "@ + to + "\n  txid="@
        + before.txid_hex@ + " vout="@ + decimal_int(before.vout as int) + " amount="@ + decimal(
        before.amount_atomic as nat,
    ) + "\n  halt reason: "@ + reason_text(before.failure_reason, "(none)"@)
}

/// Shows what is about to be changed, where there is such a deposit.
pub fn clear_deposit_halt(id: i64, before: &Option<DepositSummary>, to: &str) -> (result: Result<
    String,
    AdminRefusal,
>)
    ensures
        match *before {
            Some(record) => result matches Ok(text) && text@ == deposit_change_text(
                id,
                record,
                to@,
            ),
            None => result == Err::<String, AdminRefusal>(AdminRefusal::NoDeposit(id)),
        },
{
    match before {
        None => Err(AdminRefusal::NoDeposit(id)),
        Some(d) => {
            let mut out: String = String::from_str("deposit ");
            push_decimal_int(&mut out, id);
            out.append(": ");
            out.append(d.state.as_str());
            out.append(" -> ");
            out.append(to);
            out.append("\n  txid=");
            out.append(d.txid_hex.as_str());
            out.append(" vout=");
            push_decimal_int(&mut out, d.vout);
            out.append(" amount=");
            push_decimal(&mut out, d.amount_atomic);
            out.append("\n  halt reason: ");
            push_reason(&mut out, &d.failure_reason, "(none)");
            Ok(out)
        },
    }
}

/// What an operator reads before a halted withdrawal is taken up again.
pub open spec fn withdrawal_change_text(
    index: i64,
    before: WithdrawalSummary,
    to: Seq<char>,
) -> Seq<char> {
    "withdrawal "@ + decimal_int(index as int) + ": "@ + before.state@ + " -> "@ + to
        + "\n  amount="@ + decimal(before.amount_atomic as nat) + "\n  halt reason: "@
        + reason_text(before.failure_reason, "(none)"@)
}

/// Shows what is about to be changed, where there is such a withdrawal.
pub fn clear_withdrawal_halt(index: i64, before: &Option<WithdrawalSummary>, to: &str) -> (result:
    Result<String, AdminRefusal>)
    ensures
        match *before {
            Some(record) => result matches Ok(text) && text@ == withdrawal_change_text(
                index,
                record,
                to@,
            ),
            None => result == Err::<String, AdminRefusal>(AdminRefusal::NoWithdrawal(index)),
        },
{
    match before {
        None => Err(AdminRefusal::NoWithdrawal(index)),
        Some(w) => {
            let mut out: String = String::from_str("withdrawal ");
            push_decimal_int(&mut out, index);
            out.append(": ");
            out.append(w.state.as_str());
            out.append(" -> ");
            out.append(to);
            out.append("\n  amount=");
            push_decimal(&mut out, w.amount_atomic);
            out.append("\n  halt reason: ");
            push_reason(&mut out, &w.failure_reason, "(none)");
            Ok(out)
        },
    }
}

/// A text that is padded starts with itself, goes on with nothing but spaces,
/// and is as wide as it is to be or as it was.
pub proof fn padding_only_adds_spaces(text: Seq<char>, width: nat)
    ensures
        padded_right(text, width).len() == if text.len() < width {
            width
        } else {
            text.len()
        },
        padded_right(text, width).take(text.len() as int) == text,
        forall|i: int|
            text.len() <= i < padded_right(text, width).len() ==> #[trigger] padded_right(
                text,
                width,
            )[i] == ' ',
{
}

proof fn lemma_deposits_shown(halted: Seq<DepositSummary>, i: int)
    requires
        0 <= i < halted.len(),
    ensures
        shows(deposits_text(halted), deposit_text(halted[i])),
    decreases halted.len(),
{
    let front = halted.drop_last();
    let last = deposit_text(halted.last());
    if i == halted.len() - 1 {
        lemma_shows_within(deposits_text(front), last, Seq::empty());
        assert(deposits_text(front) + last + Seq::empty() =~= deposits_text(halted));
    } else {
        lemma_deposits_shown(front, i);
        lemma_shows_more(Seq::empty(), deposits_text(front), last, deposit_text(halted[i]));
        assert(Seq::<char>::empty() + deposits_text(front) + last =~= deposits_text(halted));
    }
}

proof fn lemma_withdrawals_shown(halted: Seq<WithdrawalSummary>, i: int)
    requires
        0 <= i < halted.len(),
    ensures
        shows(withdrawals_text(halted), withdrawal_text(halted[i])),
    decreases halted.len(),
{
    let front = halted.drop_last();
    let last = withdrawal_text(halted.last());
    if i == halted.len() - 1 {
        lemma_shows_within(withdrawals_text(front), last, Seq::empty());
        assert(withdrawals_text(front) + last + Seq::empty() =~= withdrawals_text(halted));
    } else {
        lemma_withdrawals_shown(front, i);
        lemma_shows_more(Seq::empty(), withdrawals_text(front), last, withdrawal_text(halted[i]));
        assert(Seq::<char>::empty() + withdrawals_text(front) + last =~= withdrawals_text(halted));
    }
}

/// Every deposit and every withdrawal that was halted is shown, however many
/// there are.
pub proof fn everything_that_was_halted_is_shown(
    deposits: Seq<StateCount>,
    withdrawals: Seq<StateCount>,
    vault: VaultStats,
    halted_deposits: Seq<DepositSummary>,
    halted_withdrawals: Seq<WithdrawalSummary>,
    i: int,
)
    ensures
        0 <= i < halted_deposits.len() ==> shows(
            status_text(deposits, withdrawals, vault, halted_deposits, halted_withdrawals),
            deposit_text(halted_deposits[i]),
        ),
        0 <= i < halted_withdrawals.len() ==> shows(
            status_text(deposits, withdrawals, vault, halted_deposits, halted_withdrawals),
            withdrawal_text(halted_withdrawals[i]),
        ),
        halted_deposits.len() == 0 && halted_withdrawals.len() == 0 ==> shows(
            status_text(deposits, withdrawals, vault, halted_deposits, halted_withdrawals),
            "\nno integrity halts\n"@,
        ),
{
    let text = status_text(deposits, withdrawals, vault, halted_deposits, halted_withdrawals);
    let head = "deposits by state:\n"@ + counts_text(deposits) + "\nwithdrawals by state:\n"@
        + counts_text(withdrawals) + "\nvault: "@ + decimal(vault.outputs as nat)
        + " available outputs, "@ + decimal(vault.total_atomic as nat) + " atomic units\n"@;
    let a = if halted_deposits.len() == 0 {
        Seq::empty()
    } else {
        "\nHALTED DEPOSITS — each needs an explicit operator decision:\n"@ + deposits_text(
            halted_deposits,
        )
    };
    let b = if halted_withdrawals.len() == 0 {
        Seq::empty()
    } else {
        "\nHALTED WITHDRAWALS:\n"@ + withdrawals_text(halted_withdrawals)
    };
    let c = if halted_deposits.len() == 0 && halted_withdrawals.len() == 0 {
        "\nno integrity halts\n"@
    } else {
        Seq::empty()
    };
    if 0 <= i < halted_deposits.len() {
        lemma_deposits_shown(halted_deposits, i);
        let title = head + "\nHALTED DEPOSITS — each needs an explicit operator decision:\n"@;
        lemma_shows_more(
            title,
            deposits_text(halted_deposits),
            b + c,
            deposit_text(halted_deposits[i]),
        );
        assert(title + deposits_text(halted_deposits) + (b + c) =~= text);
    }
    if 0 <= i < halted_withdrawals.len() {
        lemma_withdrawals_shown(halted_withdrawals, i);
        let title = head + a + "\nHALTED WITHDRAWALS:\n"@;
        lemma_shows_more(
            title,
            withdrawals_text(halted_withdrawals),
            c,
            withdrawal_text(halted_withdrawals[i]),
        );
        assert(title + withdrawals_text(halted_withdrawals) + c =~= text);
    }
    if halted_deposits.len() == 0 && halted_withdrawals.len() == 0 {
        lemma_shows_within(head + a + b, c, Seq::empty());
        assert(head + a + b + c + Seq::empty() =~= text);
    }
}

/// What is shown of a record says why it failed, or that nothing does, and how
/// much it is about.
pub proof fn a_record_is_shown_with_its_reason(d: DepositSummary, w: WithdrawalSummary)
    ensures
        shows(deposit_text(d), decimal(d.amount_atomic as nat)),
        shows(deposit_text(d), d.txid_hex@),
        d.failure_reason matches Some(why) ==> shows(deposit_text(d), why@),
        d.failure_reason is None ==> shows(deposit_text(d), "(none recorded)"@),
        shows(withdrawal_text(w), decimal(w.amount_atomic as nat)),
        w.failure_reason matches Some(why) ==> shows(withdrawal_text(w), why@),
        w.failure_reason is None ==> shows(withdrawal_text(w), "(none recorded)"@),
{
    let why = reason_text(d.failure_reason, "(none recorded)"@);
    let id = "  id="@ + decimal_int(d.id as int) + " txid="@;
    let vout = " vout="@ + decimal_int(d.vout as int) + " amount="@;
    let amount = decimal(d.amount_atomic as nat);
    let tail = "\n    reason: "@ + why + "\n"@;
    lemma_shows_within(id, d.txid_hex@, vout + amount + tail);
    assert(id + d.txid_hex@ + (vout + amount + tail) =~= deposit_text(d));
    lemma_shows_within(id + d.txid_hex@ + vout, amount, tail);
    assert(id + d.txid_hex@ + vout + amount + tail =~= deposit_text(d));
    lemma_shows_within(id + d.txid_hex@ + vout + amount + "\n    reason: "@, why, "\n"@);
    assert(id + d.txid_hex@ + vout + amount + "\n    reason: "@ + why + "\n"@ =~= deposit_text(d));
    let reason = reason_text(w.failure_reason, "(none recorded)"@);
    let index = "  index="@ + decimal_int(w.withdrawal_index as int) + " amount="@;
    let value = decimal(w.amount_atomic as nat);
    lemma_shows_within(index, value, "\n    reason: "@ + reason + "\n"@);
    assert(index + value + ("\n    reason: "@ + reason + "\n"@) =~= withdrawal_text(w));
    lemma_shows_within(index + value + "\n    reason: "@, reason, "\n"@);
}

/// A halt is cleared exactly where there is such a record, and one that is not
/// there is refused by its number.
pub proof fn a_halt_is_cleared_only_where_there_is_one(
    id: i64,
    deposit: Option<DepositSummary>,
    withdrawal: Option<WithdrawalSummary>,
    to: &str,
    deposit_result: Result<String, AdminRefusal>,
    withdrawal_result: Result<String, AdminRefusal>,
)
    requires
        call_ensures(clear_deposit_halt, (id, &deposit, to), deposit_result),
        call_ensures(clear_withdrawal_halt, (id, &withdrawal, to), withdrawal_result),
    ensures
        deposit_result is Ok <==> deposit is Some,
        withdrawal_result is Ok <==> withdrawal is Some,
        deposit_result matches Err(e) ==> e == AdminRefusal::NoDeposit(id),
        withdrawal_result matches Err(e) ==> e == AdminRefusal::NoWithdrawal(id),
{
}

} // verus!
