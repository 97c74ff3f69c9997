//! A user's withdrawal: burning wrapped coins and confirming what was recorded.
//!
//! A burn cannot be undone, so everything that could refuse it comes before
//! anything is signed; and success is only reported once the record on chain
//! has been read back and says what was asked for.

use crate::ops::withdraw_preflight::{
    a_withdrawal_goes_on_only_where_it_can_be_paid, check, decides, WithdrawContext,
    WithdrawRefusal,
};
use crate::solana::instruction::{key_of, try_withdrawal_pda, withdrawal_at};
use crate::solana::pubkey::{key_text, token_account, token_account_at, Pubkey};
use crate::solana::rpc::{
    bridge_config_in, decode_bridge_config, says, BridgeConfigSnapshot, SolanaRpcError,
};
use crate::text::{
    decimal, lemma_shows_at_the_ends, lemma_shows_both, lemma_shows_going_on, number_read,
    parse_number, push_decimal, quote, quoted, shows, NumberError,
};
use crate::withdrawal::address::{base58_text, payable, AddressError};
use vstd::prelude::*;

verus! {

/// How often the record of a withdrawal is looked for before the wallet stops
/// waiting.
pub const MAX_POLLS: u32 = 60;

/// What the user asks for.
#[derive(Debug, PartialEq, Eq)]
pub struct WithdrawArgs {
    pub program_id: Pubkey,
    pub user: Pubkey,
    pub amount: u64,
    pub glc_address: String,
}

/// What a user reads who types an amount that is none.
pub const AMOUNT_HINT: &'static str =
    "--amount-atomic must be a whole number of atomic units.\n1 GLC = 100000000, so 1.5 GLC is --amount-atomic 150000000.";

/// Reads the amount that a user types, in atomic units.
pub fn read_amount(text: &str) -> (amount: Result<u64, &'static str>)
    ensures
        match amount {
            Ok(n) => number_read(text@, u64::MAX as nat) == Ok::<nat, NumberError>(n as nat),
            Err(hint) => number_read(text@, u64::MAX as nat) is Err && hint@ == AMOUNT_HINT@,
        },
{
    match parse_number(text, u64::MAX) {
        Ok(n) => Ok(n),
        Err(_) => Err(AMOUNT_HINT),
    }
}

/// The record of a withdrawal as it is on chain.
#[derive(Debug, PartialEq, Eq)]
pub struct WithdrawalRecord {
    pub index: u64,
    pub requester: Pubkey,
    pub amount_atomic: u64,
    pub glc_address: String,
    pub glc_address_hash160: [u8; 20],
}

/// A burn that passed every check.
#[derive(Debug, Clone, Copy, PartialEq, Eq)]
pub struct Burn {
    pub wrapped_mint: Pubkey,
    pub user_token_account: Pubkey,
    /// The index that the bridge will assign. Of two users who race for it,
    /// one fails and nothing is overwritten.
    pub index: u64,
    /// Where the record will be.
    pub withdrawal: Pubkey,
    pub dest_hash160: [u8; 20],
}

/// One way in which a record is not what was asked for.
#[derive(Debug, PartialEq, Eq)]
pub enum Mismatch {
    Amount { found: u64, expected: u64 },
    Destination { found: String, expected: String },
    DecodesElsewhere,
    Requester { found: Pubkey, expected: Pubkey },
    Index { found: u64, expected: u64 },
}

impl Mismatch {
    /// What the user reads.
    pub open spec fn text(self) -> Seq<char> {
        match self {
            Mismatch::Amount { found, expected } => "amount is "@ + decimal(found as nat)
                + " on chain, expected "@ + decimal(expected as nat),
            Mismatch::Destination { found, expected } => "destination is "@ + quoted(found@)
                + " on chain, expected "@ + quoted(expected@),
            Mismatch::DecodesElsewhere =>
                "the destination decodes to a different Goldcoin address"@,
            Mismatch::Requester { found, expected } => "requester is "@ + base58_text(found@)
                + " on chain, expected "@ + base58_text(expected@),
            Mismatch::Index { found, expected } => "index is "@ + decimal(found as nat)
                + " on chain, expected "@ + decimal(expected as nat),
        }
    }

    /// What the user reads.
    pub fn message(&self) -> (m: String)
        ensures
            m@ == self.text(),
    {
        let mut out: String = String::new();
        match self {
            Mismatch::Amount { found, expected } => {
                out.append("amount is ");
                push_decimal(&mut out, *found);
                out.append(" on chain, expected ");
                push_decimal(&mut out, *expected);
            },
            Mismatch::Destination { found, expected } => {
                out.append("destination is ");
                out.append(quote(found.as_str()).as_str());
                out.append(" on chain, expected ");
                out.append(quote(expected.as_str()).as_str());
            },
            Mismatch::DecodesElsewhere => {
                out.append("the destination decodes to a different Goldcoin address");
            },
            Mismatch::Requester { found, expected } => {
                out.append("requester is ");
                out.append(key_text(found).as_str());
                out.append(" on chain, expected ");
                out.append(key_text(expected).as_str());
            },
            Mismatch::Index { found, expected } => {
                out.append("index is ");
                push_decimal(&mut out, *found);
                out.append(" on chain, expected ");
                push_decimal(&mut out, *expected);
            },
        }
        assert(out@ =~= self.text());
        out
    }
}

/// Every way in which a record is not what was asked for, in order.
pub open spec fn mismatches(record: WithdrawalRecord, args: WithdrawArgs, burn: Burn) -> Seq<
    Mismatch,
> {
    (if record.amount_atomic != args.amount {
        seq![Mismatch::Amount { found: record.amount_atomic, expected: args.amount }]
    } else {
        seq![]
    }) + (if record.glc_address@ != args.glc_address@ {
        seq![Mismatch::Destination { found: record.glc_address, expected: args.glc_address }]
    } else {
        seq![]
    }) + (if record.glc_address_hash160@ != burn.dest_hash160@ {
        seq![Mismatch::DecodesElsewhere]
    } else {
        seq![]
    }) + (if record.requester@ != args.user@ {
        seq![Mismatch::Requester { found: record.requester, expected: args.user }]
    } else {
        seq![]
    }) + (if record.index != burn.index {
        seq![Mismatch::Index { found: record.index, expected: burn.index }]
    } else {
        seq![]
    })
}

/// Lists every way in which a record is not what was asked for.
pub fn check_record(record: &WithdrawalRecord, args: &WithdrawArgs, burn: &Burn) -> (found: Vec<
    Mismatch,
>)
    ensures
        found@ == mismatches(*record, *args, *burn),
{
    let mut found: Vec<Mismatch> = Vec::new();
    if record.amount_atomic != args.amount {
        found.push(Mismatch::Amount { found: record.amount_atomic, expected: args.amount });
    }
    if record.glc_address != args.glc_address {
        found.push(
            Mismatch::Destination {
                found: record.glc_address.clone(),
                expected: args.glc_address.clone(),
            },
        );
    }
    if !crate::bytes::same_bytes(&record.glc_address_hash160, &burn.dest_hash160) {
        found.push(Mismatch::DecodesElsewhere);
    }
    if !record.requester.same_as(&args.user) {
        found.push(Mismatch::Requester { found: record.requester, expected: args.user });
    }
    if record.index != burn.index {
        found.push(Mismatch::Index { found: record.index, expected: burn.index });
    }
    assert(found@ =~= mismatches(*record, *args, *burn));
    found
}

/// Some mismatches, one to a line.
pub open spec fn listed(mismatches: Seq<Mismatch>) -> Seq<char>
    decreases mismatches.len(),
{
    if mismatches.len() == 0 {
        Seq::empty()
    } else {
        listed(mismatches.drop_last()) + "\n  - "@ + mismatches.last().text()
    }
}

/// What the user reads of a record that is not what was asked for.
pub fn mismatch_message(mismatches: &[Mismatch]) -> (m: String)
    ensures
        m@ == "the withdrawal was recorded but does NOT match what was requested:"@ + listed(
            mismatches@,
        ),
{
    let mut out: String = String::from_str(
        "the withdrawal was recorded but does NOT match what was requested:",
    );
    let ghost head = out@;
    let mut i: usize = 0;
    assert(head + listed(mismatches@.take(0)) =~= head);
    while i < mismatches.len()
        invariant
            i <= mismatches@.len(),
            out@ == head + listed(mismatches@.take(i as int)),
        decreases mismatches@.len() - i,
    {
        out.append("\n  - ");
        out.append(mismatches[i].message().as_str());
        i = i + 1;
        proof {
            let taken = mismatches@.take(i as int);
            assert(taken.drop_last() =~= mismatches@.take(i - 1));
            assert(out@ =~= head + listed(taken));
        }
    }
    assert(mismatches@.take(mismatches@.len() as int) =~= mismatches@);
    out
}

/// Why a withdrawal did not end well.
#[derive(Debug, PartialEq, Eq)]
pub enum WithdrawFailure {
    /// There is no bridge at the program.
    NoBridge,
    UnreadableConfig(SolanaRpcError),
    /// An address that the burn needs does not exist.
    NoAddress,
    /// Refused before anything was signed.
    Refused(WithdrawRefusal),
    /// The cluster did not take the transaction; nothing was burned.
    NotAccepted(String),
    /// The transaction was taken and its record has not appeared. It may still
    /// land: trying again could burn a second time.
    NoRecord,
    UnreadableRecord(String),
    Mismatch(Vec<Mismatch>),
}

/// What a withdrawal does next.
#[derive(Debug, PartialEq, Eq)]
pub enum WithdrawStep {
    /// Read the bridge's configuration account.
    ReadConfig,
    /// Read what the user's token account holds.
    ReadBalance { config: BridgeConfigSnapshot, user_token_account: Pubkey },
    /// Sign and send the burn.
    Submit(Burn),
    /// Look for the record.
    Poll { burn: Burn, polls: u32 },
    /// Sleep for half a second.
    Sleep { burn: Burn, polls: u32 },
    /// Decode the record.
    Decode(Burn),
    Done(Result<WithdrawalRecord, WithdrawFailure>),
}

/// What came back.
#[derive(Debug, PartialEq, Eq)]
pub enum WithdrawEvent {
    Config(Option<Vec<u8>>),
    Balance(Option<u64>),
    Submitted(Result<(), String>),
    /// Whether the record is there.
    Polled(bool),
    Woke,
    Decoded(Result<WithdrawalRecord, String>),
}

/// What a configuration and a balance say about a withdrawal.
pub open spec fn context(config: BridgeConfigSnapshot, balance: Option<u64>) -> WithdrawContext {
    WithdrawContext {
        paused: config.paused,
        min_withdrawal: config.min_withdrawal,
        mint_configured: config.wrapped_mint@ != Seq::new(32, |i: int| 0u8),
        balance,
    }
}

/// Whether `next` follows an event.
pub open spec fn withdraws(
    args: WithdrawArgs,
    step: WithdrawStep,
    event: WithdrawEvent,
    next: WithdrawStep,
) -> bool {
    match (step, event) {
        (WithdrawStep::ReadConfig, WithdrawEvent::Config(account)) => match account {
            None => next == WithdrawStep::Done(Err(WithdrawFailure::NoBridge)),
            Some(data) => match (bridge_config_in(data@), next) {
                (
                    Err(text),
                    WithdrawStep::Done(Err(WithdrawFailure::UnreadableConfig(e))),
                ) => says(e, text),
                (Ok(fields), WithdrawStep::ReadBalance { config, user_token_account }) => {
                    &&& config@ == fields
                    &&& token_account_at(args.user@, fields.wrapped_mint) matches Some(at) && at.0
                        == user_token_account@
                },
                (Ok(fields), WithdrawStep::Done(Err(WithdrawFailure::NoAddress))) =>
                    token_account_at(args.user@, fields.wrapped_mint) is None,
                _ => false,
            },
        },
        (
            WithdrawStep::ReadBalance { config, user_token_account },
            WithdrawEvent::Balance(balance),
        ) => match next {
            WithdrawStep::Submit(burn) => {
                &&& decides(
                    context(config, balance),
                    args.amount,
                    args.glc_address@,
                    Ok(burn.dest_hash160),
                )
                &&& burn.wrapped_mint == config.wrapped_mint
                &&& burn.user_token_account == user_token_account
                &&& burn.index == config.withdrawal_count
                &&& withdrawal_at(args.program_id@, config.withdrawal_count) is Some
                &&& burn.withdrawal@ == key_of(
                    withdrawal_at(args.program_id@, config.withdrawal_count),
                )
            },
            WithdrawStep::Done(Err(WithdrawFailure::Refused(why))) => decides(
                context(config, balance),
                args.amount,
                args.glc_address@,
                Err(why),
            ),
            WithdrawStep::Done(Err(WithdrawFailure::NoAddress)) => {
                &&& exists|hash: [u8; 20]|
                    #[trigger] decides(
                        context(config, balance),
                        args.amount,
                        args.glc_address@,
                        Ok(hash),
                    )
                &&& withdrawal_at(args.program_id@, config.withdrawal_count) is None
            },
            _ => false,
        },
        (WithdrawStep::Submit(burn), WithdrawEvent::Submitted(sent)) => next == match sent {
            Ok(_) => WithdrawStep::Poll { burn, polls: 0 },
            Err(why) => WithdrawStep::Done(Err(WithdrawFailure::NotAccepted(why))),
        },
        (WithdrawStep::Poll { burn, polls }, WithdrawEvent::Polled(there)) => next == if there {
            WithdrawStep::Decode(burn)
        } else {
            WithdrawStep::Sleep { burn, polls }
        },
        (WithdrawStep::Sleep { burn, polls }, WithdrawEvent::Woke) => next == if polls + 1
            >= MAX_POLLS {
            WithdrawStep::Done(Err(WithdrawFailure::NoRecord))
        } else {
            WithdrawStep::Poll { burn, polls: (polls + 1) as u32 }
        },
        (WithdrawStep::Decode(burn), WithdrawEvent::Decoded(decoded)) => match decoded {
            Err(why) => next == WithdrawStep::Done(Err(WithdrawFailure::UnreadableRecord(why))),
            Ok(record) => match next {
                WithdrawStep::Done(Ok(r)) => r == record && mismatches(record, args, burn).len()
                    == 0,
                WithdrawStep::Done(Err(WithdrawFailure::Mismatch(found))) => found@ == mismatches(
                    record,
                    args,
                    burn,
                ) && found@.len() > 0,
                _ => false,
            },
        },
        _ => next == step,
    }
}

/// Decides what follows an event. A withdrawal starts at
/// [`WithdrawStep::ReadConfig`]; an event that was not asked for changes
/// nothing.
pub fn withdraw(args: &WithdrawArgs, step: WithdrawStep, event: WithdrawEvent) -> (next: WithdrawStep)
    ensures
        withdraws(*args, step, event, next),
{
    match (step, event) {
        (WithdrawStep::ReadConfig, WithdrawEvent::Config(account)) => match account {
            None => WithdrawStep::Done(Err(WithdrawFailure::NoBridge)),
            Some(data) => match decode_bridge_config(data.as_slice()) {
                Err(e) => WithdrawStep::Done(Err(WithdrawFailure::UnreadableConfig(e))),
                Ok(config) => match token_account(&args.user, &config.wrapped_mint) {
                    Some(user_token_account) => WithdrawStep::ReadBalance {
                        config,
                        user_token_account,
                    },
                    None => WithdrawStep::Done(Err(WithdrawFailure::NoAddress)),
                },
            },
        },
        (
            WithdrawStep::ReadBalance { config, user_token_account },
            WithdrawEvent::Balance(balance),
        ) => {
            let ctx: WithdrawContext = WithdrawContext {
                paused: config.paused,
                min_withdrawal: config.min_withdrawal,
                mint_configured: config.mint_is_configured(),
                balance,
            };
            let dest_hash160: [u8; 20] = match check(&ctx, args.amount, args.glc_address.as_str()) {
                Ok(hash) => hash,
                Err(why) => {
                    return WithdrawStep::Done(Err(WithdrawFailure::Refused(why)));
                },
            };
            assert(decides(
                context(config, balance),
                args.amount,
                args.glc_address@,
                Ok(dest_hash160),
            ));
            match try_withdrawal_pda(&args.program_id, config.withdrawal_count) {
                Some(withdrawal) => WithdrawStep::Submit(
                    Burn {
                        wrapped_mint: config.wrapped_mint,
                        user_token_account,
                        index: config.withdrawal_count,
                        withdrawal: withdrawal.0,
                        dest_hash160,
                    },
                ),
                None => WithdrawStep::Done(Err(WithdrawFailure::NoAddress)),
            }
        },
        (WithdrawStep::Submit(burn), WithdrawEvent::Submitted(sent)) => match sent {
            Ok(_) => WithdrawStep::Poll { burn, polls: 0 },
            Err(why) => WithdrawStep::Done(Err(WithdrawFailure::NotAccepted(why))),
        },
        (WithdrawStep::Poll { burn, polls }, WithdrawEvent::Polled(there)) => {
            if there {
                WithdrawStep::Decode(burn)
            } else {
                WithdrawStep::Sleep { burn, polls }
            }
        },
        (WithdrawStep::Sleep { burn, polls }, WithdrawEvent::Woke) => {
            if polls >= MAX_POLLS - 1 {
                WithdrawStep::Done(Err(WithdrawFailure::NoRecord))
            } else {
                WithdrawStep::Poll { burn, polls: polls + 1 }
            }
        },
        (WithdrawStep::Decode(burn), WithdrawEvent::Decoded(decoded)) => match decoded {
            Err(why) => WithdrawStep::Done(Err(WithdrawFailure::UnreadableRecord(why))),
            Ok(record) => {
                let found: Vec<Mismatch> = check_record(&record, args, &burn);
                if found.len() == 0 {
                    WithdrawStep::Done(Ok(record))
                } else {
                    WithdrawStep::Done(Err(WithdrawFailure::Mismatch(found)))
                }
            },
        },
        (other, _) => other,
    }
}

/// A withdrawal from its start: each step follows the one before it.
pub open spec fn is_withdrawal(
    args: WithdrawArgs,
    steps: Seq<WithdrawStep>,
    events: Seq<WithdrawEvent>,
) -> bool {
    &&& steps.len() == events.len() + 1
    &&& steps[0] is ReadConfig
    &&& forall|k: int|
        0 <= k < events.len() ==> withdraws(args, #[trigger] steps[k], events[k], steps[k + 1])
}

/// Whether a burn sends the withdrawal where the user said.
pub open spec fn burns_to_the_address(args: WithdrawArgs, burn: Burn) -> bool {
    &&& args.amount > 0
    &&& payable(args.glc_address@) == Ok::<Seq<u8>, AddressError>(burn.dest_hash160@)
}

/// Whether a burn was submitted in one of the first `n` steps.
pub open spec fn was_submitted(steps: Seq<WithdrawStep>, n: int, burn: Burn) -> bool {
    exists|k: int| 0 <= k < n && #[trigger] steps[k] == WithdrawStep::Submit(burn)
}

/// Nothing is burned for an address that could not be paid, and success is
/// reported only of the record of a burn that was submitted, and only where it
/// says exactly what the user asked for.
pub proof fn a_withdrawal_is_paid_where_the_user_said(
    args: WithdrawArgs,
    steps: Seq<WithdrawStep>,
    events: Seq<WithdrawEvent>,
    n: int,
)
    requires
        is_withdrawal(args, steps, events),
        0 <= n < steps.len(),
    ensures
        match steps[n] {
            WithdrawStep::Submit(burn) => burns_to_the_address(args, burn),
            WithdrawStep::Poll { burn, .. } | WithdrawStep::Sleep { burn, .. }
            | WithdrawStep::Decode(burn) => burns_to_the_address(args, burn) && was_submitted(
                steps,
                n,
                burn,
            ),
            WithdrawStep::Done(Ok(record)) => {
                &&& exists|burn: Burn| #[trigger]
                    was_submitted(steps, n, burn) && record.index == burn.index
                &&& record.amount_atomic == args.amount
                &&& record.glc_address@ == args.glc_address@
                &&& record.requester@ == args.user@
                &&& payable(args.glc_address@) == Ok::<Seq<u8>, AddressError>(
                    record.glc_address_hash160@,
                )
            },
            _ => true,
        },
    decreases n,
{
    if n > 0 {
        a_withdrawal_is_paid_where_the_user_said(args, steps, events, n - 1);
        assert(withdraws(args, steps[n - 1], events[n - 1], steps[n - 1 + 1]));
        match steps[n - 1] {
            WithdrawStep::Submit(burn) => {
                assert(was_submitted(steps, n, burn));
            },
            WithdrawStep::Poll { burn, .. } | WithdrawStep::Sleep { burn, .. } => {
                assert(was_submitted(steps, n, burn));
            },
            WithdrawStep::Decode(burn) => {
                assert(was_submitted(steps, n, burn));
                if let WithdrawStep::Done(Ok(record)) = steps[n] {
                    lemma_no_mismatch(record, args, burn);
                }
            },
            WithdrawStep::Done(Ok(record)) => {
                let burn = choose|burn: Burn| #[trigger]
                    was_submitted(steps, n - 1, burn) && record.index == burn.index;
                assert(was_submitted(steps, n, burn));
            },
            _ => {},
        }
    }
}

proof fn lemma_no_mismatch(record: WithdrawalRecord, args: WithdrawArgs, burn: Burn)
    requires
        mismatches(record, args, burn).len() == 0,
    ensures
        record.amount_atomic == args.amount,
        record.glc_address@ == args.glc_address@,
        record.glc_address_hash160@ == burn.dest_hash160@,
        record.requester@ == args.user@,
        record.index == burn.index,
{
}

/// The wallet waits for a record a bounded number of times.
pub proof fn the_wait_for_a_record_is_bounded(
    args: WithdrawArgs,
    steps: Seq<WithdrawStep>,
    events: Seq<WithdrawEvent>,
    n: int,
)
    requires
        is_withdrawal(args, steps, events),
        0 <= n < steps.len(),
    ensures
        match steps[n] {
            WithdrawStep::Poll { polls, .. } | WithdrawStep::Sleep { polls, .. } => polls
                < MAX_POLLS,
            _ => true,
        },
    decreases n,
{
    if n > 0 {
        the_wait_for_a_record_is_bounded(args, steps, events, n - 1);
        assert(withdraws(args, steps[n - 1], events[n - 1], steps[n - 1 + 1]));
    }
}

/// A record is accepted exactly where it says what was asked for in every
/// respect, and every respect in which it does not is listed with both values.
pub proof fn a_record_is_accepted_only_as_it_was_asked_for(
    record: WithdrawalRecord,
    args: WithdrawArgs,
    burn: Burn,
)
    ensures
        mismatches(record, args, burn).len() == 0 <==> {
            &&& record.amount_atomic == args.amount
            &&& record.glc_address@ == args.glc_address@
            &&& record.glc_address_hash160@ == burn.dest_hash160@
            &&& record.requester@ == args.user@
            &&& record.index == burn.index
        },
        record.amount_atomic != args.amount ==> mismatches(record, args, burn).contains(
            Mismatch::Amount { found: record.amount_atomic, expected: args.amount },
        ),
        record.glc_address@ != args.glc_address@ ==> mismatches(record, args, burn).contains(
            Mismatch::Destination { found: record.glc_address, expected: args.glc_address },
        ),
        record.glc_address_hash160@ != burn.dest_hash160@ ==> mismatches(
            record,
            args,
            burn,
        ).contains(Mismatch::DecodesElsewhere),
        record.requester@ != args.user@ ==> mismatches(record, args, burn).contains(
            Mismatch::Requester { found: record.requester, expected: args.user },
        ),
        record.index != burn.index ==> mismatches(record, args, burn).contains(
            Mismatch::Index { found: record.index, expected: burn.index },
        ),
{
    let all = mismatches(record, args, burn);
    let a: int = if record.amount_atomic != args.amount {
        1
    } else {
        0
    };
    let b: int = a + if record.glc_address@ != args.glc_address@ {
        1int
    } else {
        0int
    };
    let c: int = b + if record.glc_address_hash160@ != burn.dest_hash160@ {
        1int
    } else {
        0int
    };
    let d: int = c + if record.requester@ != args.user@ {
        1int
    } else {
        0int
    };
    if record.amount_atomic != args.amount {
        assert(all[0] == Mismatch::Amount { found: record.amount_atomic, expected: args.amount });
    }
    if record.glc_address@ != args.glc_address@ {
        assert(all[a] == Mismatch::Destination {
            found: record.glc_address,
            expected: args.glc_address,
        });
    }
    if record.glc_address_hash160@ != burn.dest_hash160@ {
        assert(all[b] == Mismatch::DecodesElsewhere);
    }
    if record.requester@ != args.user@ {
        assert(all[c] == Mismatch::Requester { found: record.requester, expected: args.user });
    }
    if record.index != burn.index {
        assert(all[d] == Mismatch::Index { found: record.index, expected: burn.index });
    }
}

/// A burn is submitted exactly where there is a mint, the bridge is not paused,
/// the amount is something and no less than the minimum, the user holds that
/// much, the address can be paid, and there is a place for the record. It takes
/// the index that comes next, and goes to the hash of the user's address.
pub proof fn a_burn_is_submitted_only_where_it_can_be_paid(
    args: WithdrawArgs,
    config: BridgeConfigSnapshot,
    user_token_account: Pubkey,
    balance: Option<u64>,
    next: WithdrawStep,
)
    requires
        withdraws(
            args,
            WithdrawStep::ReadBalance { config, user_token_account },
            WithdrawEvent::Balance(balance),
            next,
        ),
    ensures
        ({
            let may = {
                &&& config.wrapped_mint@ != Seq::new(32, |i: int| 0u8)
                &&& !config.paused
                &&& args.amount > 0
                &&& args.amount >= config.min_withdrawal
                &&& balance is Some
                &&& balance->0 >= args.amount
                &&& payable(args.glc_address@) is Ok
            };
            let there = withdrawal_at(args.program_id@, config.withdrawal_count) is Some;
            &&& next is Submit <==> may && there
            &&& next == WithdrawStep::Done(Err(WithdrawFailure::NoAddress)) <==> may && !there
            &&& (next matches WithdrawStep::Done(Err(WithdrawFailure::Refused(_)))) <==> !may
            &&& (next matches WithdrawStep::Submit(burn) ==> {
                &&& burn.index == config.withdrawal_count
                &&& withdrawal_at(args.program_id@, burn.index) matches Some(at)
                &&& burn.withdrawal@ == at.0
                &&& burn.wrapped_mint == config.wrapped_mint
                &&& burn.user_token_account == user_token_account
                &&& payable(args.glc_address@) == Ok::<Seq<u8>, AddressError>(burn.dest_hash160@)
            })
        }),
{
    let ctx = context(config, balance);
    match next {
        WithdrawStep::Submit(burn) => {
            a_withdrawal_goes_on_only_where_it_can_be_paid(
                ctx,
                args.amount,
                args.glc_address@,
                Ok(burn.dest_hash160),
            );
        },
        WithdrawStep::Done(Err(WithdrawFailure::Refused(why))) => {
            a_withdrawal_goes_on_only_where_it_can_be_paid(
                ctx,
                args.amount,
                args.glc_address@,
                Err(why),
            );
        },
        WithdrawStep::Done(Err(WithdrawFailure::NoAddress)) => {
            let hash = choose|hash: [u8; 20]| #[trigger]
                decides(ctx, args.amount, args.glc_address@, Ok(hash));
            a_withdrawal_goes_on_only_where_it_can_be_paid(
                ctx,
                args.amount,
                args.glc_address@,
                Ok(hash),
            );
        },
        _ => {},
    }
}

/// A burn that was not taken ends the withdrawal at once; one that was taken is
/// looked for sixty times before the wallet stops waiting, and read as soon as
/// it is there.
pub proof fn a_submitted_burn_is_looked_for_sixty_times(
    args: WithdrawArgs,
    burn: Burn,
    polls: u32,
    sent: Result<(), String>,
    after_sending: WithdrawStep,
    there: bool,
    after_polling: WithdrawStep,
    after_waking: WithdrawStep,
)
    requires
        polls < 60,
        withdraws(
            args,
            WithdrawStep::Submit(burn),
            WithdrawEvent::Submitted(sent),
            after_sending,
        ),
        withdraws(
            args,
            WithdrawStep::Poll { burn, polls },
            WithdrawEvent::Polled(there),
            after_polling,
        ),
        withdraws(
            args,
            WithdrawStep::Sleep { burn, polls },
            WithdrawEvent::Woke,
            after_waking,
        ),
    ensures
        sent is Ok <==> after_sending == (WithdrawStep::Poll { burn, polls: 0 }),
        sent matches Err(why) ==> after_sending == WithdrawStep::Done(
            Err(WithdrawFailure::NotAccepted(why)),
        ),
        there <==> after_polling == WithdrawStep::Decode(burn),
        !there <==> after_polling == (WithdrawStep::Sleep { burn, polls }),
        polls < 59 <==> after_waking == (WithdrawStep::Poll { burn, polls: (polls + 1) as u32 }),
        polls == 59 <==> after_waking == WithdrawStep::Done(Err(WithdrawFailure::NoRecord)),
{
}

/// What is decoded decides the end: success exactly where the record is what was
/// asked for, and otherwise everything that is wrong with it.
pub proof fn a_withdrawal_ends_as_its_record_says(
    args: WithdrawArgs,
    burn: Burn,
    decoded: Result<WithdrawalRecord, String>,
    next: WithdrawStep,
)
    requires
        withdraws(args, WithdrawStep::Decode(burn), WithdrawEvent::Decoded(decoded), next),
    ensures
        decoded matches Err(why) ==> next == WithdrawStep::Done(
            Err(WithdrawFailure::UnreadableRecord(why)),
        ),
        decoded matches Ok(record) ==> (next == WithdrawStep::Done(Ok(record)) <==> {
            &&& record.amount_atomic == args.amount
            &&& record.glc_address@ == args.glc_address@
            &&& record.glc_address_hash160@ == burn.dest_hash160@
            &&& record.requester@ == args.user@
            &&& record.index == burn.index
        }),
        decoded is Ok ==> (next matches WithdrawStep::Done(Ok(_))) || (next
            matches WithdrawStep::Done(Err(WithdrawFailure::Mismatch(found)))),
{
    if let Ok(record) = decoded {
        a_record_is_accepted_only_as_it_was_asked_for(record, args, burn);
    }
}

/// The bridge's account decides whether there is anything to withdraw from, and
/// no event that was not asked for changes anything.
pub proof fn a_withdrawal_takes_one_answer_at_a_time(
    args: WithdrawArgs,
    step: WithdrawStep,
    event: WithdrawEvent,
    next: WithdrawStep,
)
    requires
        withdraws(args, step, event, next),
    ensures
        step is ReadConfig && event == WithdrawEvent::Config(None) ==> next == WithdrawStep::Done(
            Err(WithdrawFailure::NoBridge),
        ),
        step is Done ==> next == step,
        next != step ==> (step is ReadConfig && event is Config) || (step is ReadBalance
            && event is Balance) || (step is Submit && event is Submitted) || (step is Poll
            && event is Polled) || (step is Sleep && event is Woke) || (step is Decode
            && event is Decoded),
{
}

/// An amount is read exactly where it is a whole number of atomic units that 64
/// bits hold.
pub proof fn an_amount_is_a_whole_number(text: &str, amount: Result<u64, &'static str>)
    requires
        call_ensures(read_amount, (text,), amount),
    ensures
        amount is Ok <==> number_read(text@, u64::MAX as nat) is Ok,
        amount matches Ok(n) ==> number_read(text@, u64::MAX as nat) == Ok::<nat, NumberError>(
            n as nat,
        ),
{
}

/// The balance is asked for exactly where the bridge's account can be read and
/// the user has an address for its coins, and it is asked of that address.
pub proof fn the_balance_is_that_of_the_users_own_account(
    args: WithdrawArgs,
    account: Option<Vec<u8>>,
    next: WithdrawStep,
)
    requires
        withdraws(args, WithdrawStep::ReadConfig, WithdrawEvent::Config(account), next),
    ensures
        next is ReadBalance <==> {
            &&& account matches Some(data)
            &&& bridge_config_in(data@) matches Ok(fields)
            &&& token_account_at(args.user@, fields.wrapped_mint) is Some
        },
        next matches WithdrawStep::ReadBalance { config, user_token_account } ==> {
            &&& account matches Some(data)
            &&& bridge_config_in(data@) == Ok::<_, Seq<char>>(config@)
            &&& token_account_at(args.user@, config.wrapped_mint@) matches Some(at)
            &&& at.0 == user_token_account@
        },
        (next matches WithdrawStep::Done(Err(WithdrawFailure::NoBridge))) <==> account is None,
        (next matches WithdrawStep::Done(Err(WithdrawFailure::UnreadableConfig(_)))) <==> (account
            matches Some(data) && bridge_config_in(data@) is Err),
{
}

/// A withdrawal is held against what the bridge and the user's account say at
/// the time, and against nothing else.
pub proof fn a_withdrawal_is_held_against_the_bridge_as_it_is(
    config: BridgeConfigSnapshot,
    balance: Option<u64>,
)
    ensures
        context(config, balance).paused <==> config.paused,
        context(config, balance).min_withdrawal == config.min_withdrawal,
        context(config, balance).mint_configured <==> exists|i: int|
            0 <= i < 32 && (#[trigger] config.wrapped_mint@[i]) != 0,
        context(config, balance).balance == balance,
{
    let unset = Seq::new(32, |i: int| 0u8);
    if forall|i: int| 0 <= i < 32 ==> (#[trigger] config.wrapped_mint@[i]) == 0 {
        assert(config.wrapped_mint@ =~= unset);
    }
    if config.wrapped_mint@ == unset {
        assert forall|i: int| 0 <= i < 32 implies (#[trigger] config.wrapped_mint@[i]) == 0 by {
            assert(unset[i] == 0);
        }
    }
}

/// Everything that is wrong with a record is shown.
pub proof fn every_mismatch_is_shown(found: Seq<Mismatch>, i: int)
    requires
        0 <= i < found.len(),
    ensures
        shows(listed(found), found[i].text()),
    decreases found.len(),
{
    let front = found.drop_last();
    let before = listed(front) + "\n  - "@;
    if i == found.len() - 1 {
        lemma_shows_at_the_ends(found[i].text(), before);
    } else {
        every_mismatch_is_shown(front, i);
        lemma_shows_going_on(listed(front), found[i].text(), "\n  - "@);
        lemma_shows_going_on(before, found[i].text(), found.last().text());
    }
}

/// What is shown of a mismatch is both what is on the chain and what was asked
/// for.
pub proof fn a_mismatch_shows_both_sides(
    found: u64,
    expected: u64,
    found_key: Pubkey,
    expected_key: Pubkey,
    found_text: String,
    expected_text: String,
)
    ensures
        shows(Mismatch::Amount { found, expected }.text(), decimal(found as nat)),
        shows(Mismatch::Amount { found, expected }.text(), decimal(expected as nat)),
        shows(Mismatch::Index { found, expected }.text(), decimal(found as nat)),
        shows(Mismatch::Index { found, expected }.text(), decimal(expected as nat)),
        shows(
            Mismatch::Destination { found: found_text, expected: expected_text }.text(),
            quoted(found_text@),
        ),
        shows(
            Mismatch::Destination { found: found_text, expected: expected_text }.text(),
            quoted(expected_text@),
        ),
        shows(
            Mismatch::Requester { found: found_key, expected: expected_key }.text(),
            base58_text(found_key@),
        ),
        shows(
            Mismatch::Requester { found: found_key, expected: expected_key }.text(),
            base58_text(expected_key@),
        ),
{
    let but = " on chain, expected "@;
    lemma_shows_both("amount is "@, decimal(found as nat), but, decimal(expected as nat));
    lemma_shows_both("index is "@, decimal(found as nat), but, decimal(expected as nat));
    lemma_shows_both("destination is "@, quoted(found_text@), but, quoted(expected_text@));
    lemma_shows_both("requester is "@, base58_text(found_key@), but, base58_text(expected_key@));
}

} // verus!
