//! What a wallet checks before it burns anything.
//!
//! The on-chain program cannot validate a Goldcoin destination, and a burn
//! cannot be undone. A typo in an address is a permanent loss of the burned
//! amount, so every check here runs before the transaction is signed, and the
//! address is decided by the same function the payout side uses.

use crate::text::{
    all_digits, decimal, digit, digit_char, digits_value, lemma_decimal, lemma_shows_at_the_ends,
    lemma_shows_both, lemma_shows_going_on, push_decimal, quote, quoted, shows,
};
use crate::withdrawal::address::{decode_p2pkh_hash160, payable};
use vstd::prelude::*;

verus! {

/// One coin in atomic units.
pub const ATOMIC_PER_GLC: u64 = 100_000_000;

/// Why a withdrawal was refused before anything was signed.
///
/// The messages are written for someone who has never read this code: they say
/// what is wrong, what the number was, and what to do.
#[derive(Debug, Clone, PartialEq, Eq)]
pub enum WithdrawRefusal {
    BridgePaused,
    ZeroAmount,
    BelowMinimum { amount: u64, minimum: u64 },
    InsufficientBalance { balance: u64, amount: u64 },
    NoTokenAccount,
    InvalidAddress { address: String, reason: String },
    MintNotConfigured,
}

/// Ten to the power `n`.
pub open spec fn pow10(n: nat) -> nat
    decreases n,
{
    if n == 0 {
        1
    } else {
        10 * pow10((n - 1) as nat)
    }
}

/// The last `width` decimal digits of a number.
pub open spec fn padded(n: nat, width: nat) -> Seq<char> {
    Seq::new(width, |i: int| digit_char((n / pow10((width - 1 - i) as nat)) % 10))
}

/// Atomic units as coins, to eight decimal places.
pub open spec fn glc_text(atomic: u64) -> Seq<char> {
    decimal((atomic / ATOMIC_PER_GLC) as nat) + "."@ + padded(
        (atomic % ATOMIC_PER_GLC) as nat,
        8,
    )
}

/// Appends atomic units as coins, to eight decimal places.
pub fn push_glc(out: &mut String, atomic: u64)
    ensures
        final(out)@ == old(out)@ + glc_text(atomic),
{
    push_decimal(out, atomic / ATOMIC_PER_GLC);
    out.append(".");
    let ghost head = out@;
    let rest: u64 = atomic % ATOMIC_PER_GLC;
    let mut scale: u64 = 10_000_000;
    let mut i: usize = 0;
    proof {
        reveal_with_fuel(pow10, 9);
        assert(head + padded(rest as nat, 8).take(0) =~= head);
    }
    while i < 8
        invariant
            i <= 8,
            i < 8 ==> scale == pow10((7 - i) as nat),
            out@ == head + padded(rest as nat, 8).take(i as int),
        decreases 8 - i,
    {
        proof {
            reveal_with_fuel(pow10, 9);
        }
        out.push(digit((rest / scale) % 10));
        assert(out@ =~= head + padded(rest as nat, 8).take(i + 1));
        scale = scale / 10;
        i = i + 1;
    }
    assert(padded(rest as nat, 8).take(8) =~= padded(rest as nat, 8));
    assert(out@ =~= old(out)@ + glc_text(atomic));
}

impl WithdrawRefusal {
    /// What the user reads.
    pub open spec fn text(self) -> Seq<char> {
        match self {
            WithdrawRefusal::BridgePaused =>
                "the bridge is paused, so withdrawals are not being accepted right now.\nNothing was burned. Try again once the operators have unpaused it."@,
            WithdrawRefusal::ZeroAmount =>
                "the amount must be greater than zero.\nAmounts are in atomic units: 1 GLC = 100000000, so --amount-atomic 100000000 is 1 GLC."@,
            WithdrawRefusal::BelowMinimum { amount, minimum } => "the amount "@ + decimal(
                amount as nat,
            ) + " is below this bridge's minimum withdrawal of "@ + decimal(minimum as nat)
                + ".\nNothing was burned. In GLC that minimum is about "@ + glc_text(minimum)
                + "."@,
            WithdrawRefusal::InsufficientBalance { balance, amount } => "you have "@ + decimal(
                balance as nat,
            ) + " atomic units of wrapped GLC but tried to withdraw "@ + decimal(amount as nat)
                + ".\nNothing was burned. In GLC you hold about "@ + glc_text(balance)
                + " and asked for "@ + glc_text(amount) + "."@,
            WithdrawRefusal::NoTokenAccount =>
                "no wrapped-GLC token account was found for your key.\nThat usually means this key has never received wrapped GLC. Nothing was burned."@,
            WithdrawRefusal::InvalidAddress { address, reason } => "the Goldcoin address "@
                + quoted(address@) + " is not valid ("@ + reason@
                + ").\nNothing was burned — and that matters: the bridge cannot check the address on chain, so burning to a bad address would destroy the tokens permanently. Check the address and try again."@,
            WithdrawRefusal::MintNotConfigured =>
                "this bridge has no wrapped-GLC mint yet, so there is nothing to withdraw.\nThe bridge has not finished being set up."@,
        }
    }

    /// What the user reads.
    pub fn message(&self) -> (m: String)
        ensures
            m@ == self.text(),
    {
        match self {
            WithdrawRefusal::BridgePaused => String::from_str(
                "the bridge is paused, so withdrawals are not being accepted right now.\nNothing was burned. Try again once the operators have unpaused it.",
            ),
            WithdrawRefusal::ZeroAmount => String::from_str(
                "the amount must be greater than zero.\nAmounts are in atomic units: 1 GLC = 100000000, so --amount-atomic 100000000 is 1 GLC.",
            ),
            WithdrawRefusal::BelowMinimum { amount, minimum } => {
                let mut m: String = String::from_str("the amount ");
                push_decimal(&mut m, *amount);
                m.append(" is below this bridge's minimum withdrawal of ");
                push_decimal(&mut m, *minimum);
                m.append(".\nNothing was burned. In GLC that minimum is about ");
                push_glc(&mut m, *minimum);
                m.append(".");
                m
            },
            WithdrawRefusal::InsufficientBalance { balance, amount } => {
                let mut m: String = String::from_str("you have ");
                push_decimal(&mut m, *balance);
                m.append(" atomic units of wrapped GLC but tried to withdraw ");
                push_decimal(&mut m, *amount);
                m.append(".\nNothing was burned. In GLC you hold about ");
                push_glc(&mut m, *balance);
                m.append(" and asked for ");
                push_glc(&mut m, *amount);
                m.append(".");
                m
            },
            WithdrawRefusal::NoTokenAccount => String::from_str(
                "no wrapped-GLC token account was found for your key.\nThat usually means this key has never received wrapped GLC. Nothing was burned.",
            ),
            WithdrawRefusal::InvalidAddress { address, reason } => {
                let mut m: String = String::from_str("the Goldcoin address ");
                m.append(quote(address.as_str()).as_str());
                m.append(" is not valid (");
                m.append(reason.as_str());
                m.append(
                    ").\nNothing was burned — and that matters: the bridge cannot check the address on chain, so burning to a bad address would destroy the tokens permanently. Check the address and try again.",
                );
                m
            },
            WithdrawRefusal::MintNotConfigured => String::from_str(
                "this bridge has no wrapped-GLC mint yet, so there is nothing to withdraw.\nThe bridge has not finished being set up.",
            ),
        }
    }
}

/// Everything the wallet reads before deciding.
#[derive(Debug, Clone, Copy, PartialEq, Eq)]
pub struct WithdrawContext {
    pub paused: bool,
    pub min_withdrawal: u64,
    pub mint_configured: bool,
    /// `None` when the user has no token account at all — distinct from a zero
    /// balance, and the advice differs.
    pub balance: Option<u64>,
}

/// Whether a result is the decision about a withdrawal: conditions that have
/// nothing to do with the user come first, then the request itself, then the
/// address.
pub open spec fn decides(
    ctx: WithdrawContext,
    amount: u64,
    glc_address: Seq<char>,
    result: Result<[u8; 20], WithdrawRefusal>,
) -> bool {
    if !ctx.mint_configured {
        result matches Err(WithdrawRefusal::MintNotConfigured)
    } else if ctx.paused {
        result matches Err(WithdrawRefusal::BridgePaused)
    } else if amount == 0 {
        result matches Err(WithdrawRefusal::ZeroAmount)
    } else if amount < ctx.min_withdrawal {
        result == Err::<[u8; 20], _>(
            WithdrawRefusal::BelowMinimum { amount, minimum: ctx.min_withdrawal },
        )
    } else if ctx.balance is None {
        result matches Err(WithdrawRefusal::NoTokenAccount)
    } else if ctx.balance->0 < amount {
        result == Err::<[u8; 20], _>(
            WithdrawRefusal::InsufficientBalance { balance: ctx.balance->0, amount },
        )
    } else {
        match payable(glc_address) {
            Ok(hash) => result matches Ok(h) && h@ == hash,
            Err(e) => result matches Err(WithdrawRefusal::InvalidAddress { address, reason })
                && address@ == glc_address && reason@ == e.text(),
        }
    }
}

/// Decides whether a withdrawal may proceed, and to which hash.
pub fn check(ctx: &WithdrawContext, amount: u64, glc_address: &str) -> (result: Result<
    [u8; 20],
    WithdrawRefusal,
>)
    ensures
        decides(*ctx, amount, glc_address@, result),
{
    if !ctx.mint_configured {
        return Err(WithdrawRefusal::MintNotConfigured);
    }
    if ctx.paused {
        return Err(WithdrawRefusal::BridgePaused);
    }
    if amount == 0 {
        return Err(WithdrawRefusal::ZeroAmount);
    }
    if amount < ctx.min_withdrawal {
        return Err(WithdrawRefusal::BelowMinimum { amount, minimum: ctx.min_withdrawal });
    }
    let balance: u64 = match ctx.balance {
        Some(balance) => balance,
        None => {
            return Err(WithdrawRefusal::NoTokenAccount);
        },
    };
    if balance < amount {
        return Err(WithdrawRefusal::InsufficientBalance { balance, amount });
    }
    // Last, and the one that cannot be undone if it is wrong.
    match decode_p2pkh_hash160(glc_address) {
        Ok(hash) => Ok(hash),
        Err(e) => Err(
            WithdrawRefusal::InvalidAddress {
                address: String::from_str(glc_address),
                reason: e.message(),
            },
        ),
    }
}

/// A withdrawal goes on exactly where there is a mint, the bridge is not paused,
/// the amount is something and no less than the minimum, the user holds at least
/// that much, and the address can be paid; and it goes to the address's own
/// hash.
pub proof fn a_withdrawal_goes_on_only_where_it_can_be_paid(
    ctx: WithdrawContext,
    amount: u64,
    glc_address: Seq<char>,
    result: Result<[u8; 20], WithdrawRefusal>,
)
    requires
        decides(ctx, amount, glc_address, result),
    ensures
        result is Ok <==> {
            &&& ctx.mint_configured
            &&& !ctx.paused
            &&& amount > 0
            &&& amount >= ctx.min_withdrawal
            &&& ctx.balance matches Some(held) && held >= amount
            &&& payable(glc_address) is Ok
        },
        result matches Ok(hash) ==> payable(glc_address) == Ok::<
            Seq<u8>,
            crate::withdrawal::address::AddressError,
        >(hash@),
{
}

/// A refusal names what is wrong, with the numbers it is about: a user who holds
/// less than was asked for is told both.
pub proof fn a_refusal_names_its_reason(
    ctx: WithdrawContext,
    amount: u64,
    glc_address: Seq<char>,
    why: WithdrawRefusal,
)
    requires
        decides(ctx, amount, glc_address, Err(why)),
    ensures
        why is MintNotConfigured <==> !ctx.mint_configured,
        why is BridgePaused <==> ctx.mint_configured && ctx.paused,
        why is ZeroAmount <==> ctx.mint_configured && !ctx.paused && amount == 0,
        why matches WithdrawRefusal::BelowMinimum { amount: asked, minimum } ==> asked == amount
            && minimum == ctx.min_withdrawal && asked < minimum,
        why is NoTokenAccount ==> ctx.balance is None,
        why matches WithdrawRefusal::InsufficientBalance { balance, amount: asked } ==> asked
            == amount && ctx.balance == Some(balance) && balance < asked,
        why matches WithdrawRefusal::InvalidAddress { address, reason } ==> address@ == glc_address
            && (payable(glc_address) matches Err(e) && reason@ == e.text()),
{
}

/// Who may withdraw an amount may also withdraw it holding more; and who may
/// not for want of balance may not holding less.
pub proof fn a_larger_balance_is_never_in_the_way(
    ctx: WithdrawContext,
    richer: WithdrawContext,
    amount: u64,
    glc_address: Seq<char>,
    result: Result<[u8; 20], WithdrawRefusal>,
    later: Result<[u8; 20], WithdrawRefusal>,
)
    requires
        decides(ctx, amount, glc_address, result),
        decides(richer, amount, glc_address, later),
        richer.paused == ctx.paused,
        richer.min_withdrawal == ctx.min_withdrawal,
        richer.mint_configured == ctx.mint_configured,
        ctx.balance is Some,
        richer.balance is Some,
        ctx.balance->0 <= richer.balance->0,
    ensures
        result is Ok ==> later is Ok,
        later matches Err(WithdrawRefusal::InsufficientBalance { .. }) ==> result matches Err(
            WithdrawRefusal::InsufficientBalance { .. },
        ),
{
}

proof fn lemma_pow10_positive(n: nat)
    ensures
        pow10(n) > 0,
    decreases n,
{
    if n > 0 {
        lemma_pow10_positive((n - 1) as nat);
    }
}

/// So many digits with leading zeros spell the number.
proof fn lemma_padded(n: nat, width: nat)
    requires
        n < pow10(width),
    ensures
        padded(n, width).len() == width,
        width > 0 ==> all_digits(padded(n, width)),
        digits_value(padded(n, width)) == n,
    decreases width,
{
    let text = padded(n, width);
    if width == 0 {
        assert(text.len() == 0);
    } else {
        let shorter = padded(n / 10, (width - 1) as nat);
        assert(pow10(width) == 10 * pow10((width - 1) as nat));
        lemma_padded(n / 10, (width - 1) as nat);
        assert forall|i: int| 0 <= i < width - 1 implies text.drop_last()[i] == shorter[i] by {
            let k = (width - 2 - i) as nat;
            lemma_pow10_positive(k);
            assert(pow10(k + 1) == 10 * pow10(k));
            vstd::arithmetic::div_mod::lemma_div_denominator(n as int, 10, pow10(k) as int);
            assert(n / pow10(k + 1) == (n / 10) / pow10(k));
        }
        assert(text.drop_last() =~= shorter);
        assert(pow10(0) == 1);
        assert(n / 1 == n);
        assert(text.last() == digit_char(n % 10));
        assert forall|i: int| 0 <= i < text.len() implies '0' <= #[trigger] text[i] <= '9' by {
            if i < width - 1 {
                assert(text[i] == text.drop_last()[i]);
                assert(all_digits(shorter));
            }
        }
    }
}

/// An amount is shown in coins to eight places: what stands before the point and
/// what stands behind it spell the amount together.
pub proof fn a_shown_amount_spells_the_amount(atomic: u64)
    ensures
        ({
            let text = glc_text(atomic);
            let at = text.len() - 9;
            &&& at > 0
            &&& text[at] == '.'
            &&& all_digits(text.take(at))
            &&& all_digits(text.skip(at + 1))
            &&& digits_value(text.take(at)) * 100_000_000
                + digits_value(text.skip(at + 1)) == atomic
        }),
{
    let text = glc_text(atomic);
    let whole = decimal((atomic / 100_000_000) as nat);
    let part = padded((atomic % 100_000_000) as nat, 8);
    assert(pow10(8) == 100_000_000) by {
        reveal_with_fuel(pow10, 9);
    }
    lemma_padded((atomic % 100_000_000) as nat, 8);
    lemma_decimal((atomic / 100_000_000) as nat);
    reveal_strlit(".");
    let at = text.len() - 9;
    assert(text.take(at) =~= whole);
    assert(text.skip(at + 1) =~= part);
}

/// What the user reads of a refused withdrawal names the amounts, or the address
/// and what is wrong with it.
pub proof fn a_refused_user_reads_the_amounts(
    amount: u64,
    limit: u64,
    address: String,
    reason: String,
)
    ensures
        ({
            let low = WithdrawRefusal::BelowMinimum { amount, minimum: limit }.text();
            let poor = WithdrawRefusal::InsufficientBalance { balance: limit, amount }.text();
            let lost = WithdrawRefusal::InvalidAddress { address, reason }.text();
            &&& shows(low, decimal(amount as nat)) && shows(low, decimal(limit as nat)) && shows(
                low,
                glc_text(limit),
            )
            &&& shows(poor, decimal(limit as nat)) && shows(poor, decimal(amount as nat)) && shows(
                poor,
                glc_text(limit),
            ) && shows(poor, glc_text(amount))
            &&& shows(lost, quoted(address@)) && shows(lost, reason@)
        }),
{
    let a = decimal(amount as nat);
    let l = decimal(limit as nat);
    let low = "the amount "@ + a + " is below this bridge's minimum withdrawal of "@ + l;
    let low_tail = ".\nNothing was burned. In GLC that minimum is about "@;
    lemma_shows_both(
        "the amount "@,
        a,
        " is below this bridge's minimum withdrawal of "@,
        l,
    );
    lemma_shows_going_on(low, a, low_tail);
    lemma_shows_going_on(low, l, low_tail);
    lemma_shows_going_on(low + low_tail, a, glc_text(limit));
    lemma_shows_going_on(low + low_tail, l, glc_text(limit));
    lemma_shows_at_the_ends(glc_text(limit), low + low_tail);
    lemma_shows_going_on(low + low_tail + glc_text(limit), a, "."@);
    lemma_shows_going_on(low + low_tail + glc_text(limit), l, "."@);
    lemma_shows_going_on(low + low_tail + glc_text(limit), glc_text(limit), "."@);
    let but = " atomic units of wrapped GLC but tried to withdraw "@;
    let poor = "you have "@ + l + but + a;
    let poor_tail = ".\nNothing was burned. In GLC you hold about "@;
    let asked = " and asked for "@;
    lemma_shows_both("you have "@, l, but, a);
    lemma_shows_going_on(poor, l, poor_tail);
    lemma_shows_going_on(poor, a, poor_tail);
    lemma_shows_going_on(poor + poor_tail, l, glc_text(limit));
    lemma_shows_going_on(poor + poor_tail, a, glc_text(limit));
    let held = poor + poor_tail + glc_text(limit);
    lemma_shows_at_the_ends(glc_text(limit), poor + poor_tail);
    lemma_shows_going_on(held, l, asked);
    lemma_shows_going_on(held, a, asked);
    lemma_shows_going_on(held, glc_text(limit), asked);
    lemma_shows_going_on(held + asked, l, glc_text(amount));
    lemma_shows_going_on(held + asked, a, glc_text(amount));
    lemma_shows_going_on(held + asked, glc_text(limit), glc_text(amount));
    lemma_shows_at_the_ends(glc_text(amount), held + asked);
    let all = held + asked + glc_text(amount);
    lemma_shows_going_on(all, l, "."@);
    lemma_shows_going_on(all, a, "."@);
    lemma_shows_going_on(all, glc_text(limit), "."@);
    lemma_shows_going_on(all, glc_text(amount), "."@);
    let q = quoted(address@);
    let wrong = "the Goldcoin address "@ + q + " is not valid ("@ + reason@;
    let advice =
        ").\nNothing was burned — and that matters: the bridge cannot check the address on chain, so burning to a bad address would destroy the tokens permanently. Check the address and try again."@;
    lemma_shows_both("the Goldcoin address "@, q, " is not valid ("@, reason@);
    lemma_shows_going_on(wrong, q, advice);
    lemma_shows_going_on(wrong, reason@, advice);
}

} // verus!
