//! What an operator's commands decide before they touch anything, and what
//! they make of the answer.
//!
//! Every check here is made again by the program or by the other operators.
//! Making it first turns a failed transaction and an error code into a
//! sentence.

use crate::glc::withdrawal_db::{PayoutIntent, VaultUtxo, WithdrawalRow};
use crate::solana::confirm::{signature_text, ConfirmFailure};
use crate::solana::instruction::{
    can_govern, can_start, initialize_call, propose_rotation_call, try_initialize_instruction,
    try_propose_rotation_instruction, Instruction,
};
use crate::solana::pubkey::{key_in, key_text, parse_key, Pubkey};
use crate::solana::rpc::{
    decode_pending_action, pending_action_in, says, BridgeConfigSnapshot, PendingActionSnapshot,
    SolanaRpcError,
};
use crate::text::{
    decimal, decimal_int, lemma_shows_at_the_ends, lemma_shows_both, lemma_shows_going_on,
    lemma_shows_within, list_items, number_read, parse_number, push_decimal, push_decimal_int,
    quote, quoted, shows, split_list, texts, NumberError,
};
use crate::withdrawal::address::base58_text;
use crate::withdrawal::building::{intends, payout_intent, Amounts};
use crate::withdrawal::config::WithdrawalConfig;
use vstd::prelude::*;

verus! {

/// Why a command was refused before anything was submitted or written.
#[derive(Debug, PartialEq, Eq)]
pub enum AdminRefusal {
    ImpossibleThreshold { threshold: u8, validators: usize },
    NoTimelock,
    /// A cap of zero was asked for at the start.
    NoInitialCap,
    /// A cap of zero was asked for as a raise.
    ZeroCap,
    /// A cap of zero was asked for as the new, lower cap.
    ZeroLowerCap,
    NotAKey { item: String, why: String },
    NewAdminNotAKey(String),
    NotAPosition { item: String, why: NumberError },
    InvalidQuorum(String),
    NoPayout(i64),
    AlreadySigned { index: i64, txid_hex: Option<String> },
    NoWithdrawal(i64),
    NoDeposit(i64),
    MintExists(Pubkey),
    NoMint,
    NoHandover,
    NotTheIncomingAdmin { pending: Pubkey, key: Pubkey },
}

impl AdminRefusal {
    /// What the operator reads.
    pub open spec fn text(self) -> Seq<char> {
        match self {
            AdminRefusal::ImpossibleThreshold { threshold, validators } => "threshold "@ + decimal(
                threshold as nat,
            ) + " is impossible for "@ + decimal(validators as nat) + " validators"@,
            AdminRefusal::NoTimelock =>
                "the governance timelock must be positive — the program refuses zero, because a timelock of zero is no timelock and there is deliberately no default"@,
            AdminRefusal::NoInitialCap =>
                "a wrapped-supply cap of zero is never valid: it would have to mean either 'no minting' or 'unlimited', and the second is the exact wrong default for a bound on exposure"@,
            AdminRefusal::ZeroCap => "a wrapped-supply cap of zero is never valid"@,
            AdminRefusal::ZeroLowerCap =>
                "a wrapped-supply cap of zero is never valid; the program refuses it"@,
            AdminRefusal::NotAKey { item, why } => quoted(item@) + " is not a pubkey: "@ + why@,
            AdminRefusal::NewAdminNotAKey(why) => "--new-admin is not a pubkey: "@ + why@,
            AdminRefusal::NotAPosition { item, why } => quoted(item@) + ": "@ + why.text(),
            AdminRefusal::InvalidQuorum(why) =>
                "the proposed quorum is not valid for this vault: "@ + why@,
            AdminRefusal::NoPayout(index) => "no payout for withdrawal "@ + decimal_int(
                index as int,
            ),
            AdminRefusal::AlreadySigned { index, txid_hex } => "withdrawal "@ + decimal_int(
                index as int,
            ) + " is already signed (txid "@ + match txid_hex {
                Some(txid) => txid@,
                None => "unknown"@,
            }
                + ") — rebroadcast it rather than reassigning; reassignment changes the txid"@,
            AdminRefusal::NoWithdrawal(index) => "no withdrawal with index "@ + decimal_int(
                index as int,
            ),
            AdminRefusal::NoDeposit(id) => "no deposit with id "@ + decimal_int(id as int),
            AdminRefusal::MintExists(mint) => "the wrapped mint is already set to "@ + base58_text(
                mint@,
            ) + " — this instruction runs once"@,
            AdminRefusal::NoMint =>
                "no wrapped mint exists yet — run `glc-admin create-wrapped-mint` first"@,
            AdminRefusal::NoHandover => "no admin handover is pending"@,
            AdminRefusal::NotTheIncomingAdmin { pending, key } => "the pending admin is "@
                + base58_text(pending@) + ", but GLC_ADMIN_KEYPAIR_PATH holds "@ + base58_text(key@)
                + " — this command must be run by the INCOMING admin"@,
        }
    }

    /// What the operator reads.
    pub fn message(&self) -> (m: String)
        ensures
            m@ == self.text(),
    {
        let mut out: String = String::new();
        match self {
            AdminRefusal::ImpossibleThreshold { threshold, validators } => {
                out.append("threshold ");
                push_decimal(&mut out, *threshold as u64);
                out.append(" is impossible for ");
                push_decimal(&mut out, *validators as u64);
                out.append(" validators");
            },
            AdminRefusal::NoTimelock => {
                out.append(
                    "the governance timelock must be positive — the program refuses zero, because a timelock of zero is no timelock and there is deliberately no default",
                );
            },
            AdminRefusal::NoInitialCap => {
                out.append(
                    "a wrapped-supply cap of zero is never valid: it would have to mean either 'no minting' or 'unlimited', and the second is the exact wrong default for a bound on exposure",
                );
            },
            AdminRefusal::ZeroCap => {
                out.append("a wrapped-supply cap of zero is never valid");
            },
            AdminRefusal::ZeroLowerCap => {
                out.append("a wrapped-supply cap of zero is never valid; the program refuses it");
            },
            AdminRefusal::NotAKey { item, why } => {
                out.append(quote(item.as_str()).as_str());
                out.append(" is not a pubkey: ");
                out.append(why.as_str());
            },
            AdminRefusal::NewAdminNotAKey(why) => {
                out.append("--new-admin is not a pubkey: ");
                out.append(why.as_str());
            },
            AdminRefusal::NotAPosition { item, why } => {
                out.append(quote(item.as_str()).as_str());
                out.append(": ");
                out.append(why.message());
            },
            AdminRefusal::InvalidQuorum(why) => {
                out.append("the proposed quorum is not valid for this vault: ");
                out.append(why.as_str());
            },
            AdminRefusal::NoPayout(index) => {
                out.append("no payout for withdrawal ");
                push_decimal_int(&mut out, *index);
            },
            AdminRefusal::AlreadySigned { index, txid_hex } => {
                out.append("withdrawal ");
                push_decimal_int(&mut out, *index);
                out.append(" is already signed (txid ");
                match txid_hex {
                    Some(txid) => {
                        out.append(txid.as_str());
                    },
                    None => {
                        out.append("unknown");
                    },
                }
                out.append(
                    ") — rebroadcast it rather than reassigning; reassignment changes the txid",
                );
            },
            AdminRefusal::NoWithdrawal(index) => {
                out.append("no withdrawal with index ");
                push_decimal_int(&mut out, *index);
            },
            AdminRefusal::NoDeposit(id) => {
                out.append("no deposit with id ");
                push_decimal_int(&mut out, *id);
            },
            AdminRefusal::MintExists(mint) => {
                out.append("the wrapped mint is already set to ");
                out.append(key_text(mint).as_str());
                out.append(" — this instruction runs once");
            },
            AdminRefusal::NoMint => {
                out.append("no wrapped mint exists yet — run `glc-admin create-wrapped-mint` first");
            },
            AdminRefusal::NoHandover => {
                out.append("no admin handover is pending");
            },
            AdminRefusal::NotTheIncomingAdmin { pending, key } => {
                out.append("the pending admin is ");
                out.append(key_text(pending).as_str());
                out.append(", but GLC_ADMIN_KEYPAIR_PATH holds ");
                out.append(key_text(key).as_str());
                out.append(" — this command must be run by the INCOMING admin");
            },
        }
        assert(out@ =~= self.text());
        out
    }
}

/// Whether a list of keys is read as the entries are, up to the first that is
/// no key.
pub open spec fn reads_keys(items: Seq<Seq<char>>, result: Result<Vec<Pubkey>, AdminRefusal>) -> bool {
    match result {
        Ok(keys) => {
            &&& keys@.len() == items.len()
            &&& forall|i: int|
                0 <= i < items.len() ==> key_in(#[trigger] items[i]) == Ok::<Seq<u8>, Seq<char>>(
                    keys@[i]@,
                )
        },
        Err(AdminRefusal::NotAKey { item, why }) => exists|i: int|
            0 <= i < items.len() && item@ == #[trigger] items[i] && key_in(items[i]) == Err::<
                Seq<u8>,
                Seq<char>,
            >(why@) && forall|j: int| 0 <= j < i ==> key_in(#[trigger] items[j]) is Ok,
        Err(_) => false,
    }
}

/// Reads a comma-separated list of keys. Their order matters: it fixes each
/// member's place in the federation.
pub fn parse_validators(text: &str) -> (result: Result<Vec<Pubkey>, AdminRefusal>)
    ensures
        reads_keys(list_items(text@), result),
{
    let items: Vec<String> = split_list(text);
    let ghost wanted = list_items(text@);
    let mut keys: Vec<Pubkey> = Vec::new();
    let mut i: usize = 0;
    while i < items.len()
        invariant
            i <= items@.len(),
            wanted == texts(items@),
            wanted == list_items(text@),
            keys@.len() == i,
            forall|j: int|
                0 <= j < i ==> key_in(#[trigger] wanted[j]) == Ok::<Seq<u8>, Seq<char>>(keys@[j]@),
        decreases items@.len() - i,
    {
        assert(wanted[i as int] == items@[i as int]@);
        match parse_key(items[i].as_str()) {
            Ok(key) => {
                keys.push(key);
            },
            Err(why) => {
                return Err(AdminRefusal::NotAKey { item: items[i].clone(), why });
            },
        }
        i = i + 1;
    }
    Ok(keys)
}

/// Refuses a threshold that the validators cannot reach, or that asks for
/// nobody.
pub fn check_threshold(threshold: u8, validators: usize) -> (result: Result<(), AdminRefusal>)
    ensures
        match result {
            Ok(_) => 0 < threshold <= validators,
            Err(e) => !(0 < threshold <= validators) && e == (AdminRefusal::ImpossibleThreshold {
                threshold,
                validators,
            }),
        },
{
    if threshold == 0 || threshold as usize > validators {
        Err(AdminRefusal::ImpossibleThreshold { threshold, validators })
    } else {
        Ok(())
    }
}

/// Whether a rotation to the listed validators is read, or refused, as it has to
/// be.
pub open spec fn reads_rotation(
    items: Seq<Seq<char>>,
    threshold: u8,
    result: Result<Vec<Pubkey>, AdminRefusal>,
) -> bool {
    match result {
        Ok(keys) => reads_keys(items, result) && 0 < threshold <= keys@.len(),
        Err(AdminRefusal::ImpossibleThreshold { threshold: t, validators: n }) => {
            &&& !(0 < threshold <= n)
            &&& t == threshold
            &&& exists|keys: Vec<Pubkey>|
                keys@.len() == n && #[trigger] reads_keys(items, Ok(keys))
        },
        Err(_) => reads_keys(items, result),
    }
}

/// Reads the validators of a rotation and holds the threshold against them.
pub fn rotation(text: &str, threshold: u8) -> (result: Result<Vec<Pubkey>, AdminRefusal>)
    ensures
        reads_rotation(list_items(text@), threshold, result),
{
    match parse_validators(text) {
        Ok(keys) => match check_threshold(threshold, keys.len()) {
            Ok(_) => Ok(keys),
            Err(e) => {
                assert(reads_keys(list_items(text@), Ok(keys)));
                Err(e)
            },
        },
        Err(e) => Err(e),
    }
}

/// The call that proposes a rotation, for the validators as an operator types
/// them. Nothing where an address that it needs does not exist.
pub fn submit_rotation(program_id: &Pubkey, proposer: &Pubkey, text: &str, threshold: u8) -> (result:
    Result<Option<Instruction>, AdminRefusal>)
    ensures
        match result {
            Ok(Some(ix)) => can_govern(program_id@) && exists|keys: Vec<Pubkey>|
                0 < threshold <= keys@.len() && #[trigger] reads_keys(list_items(text@), Ok(keys))
                    && ix@ == propose_rotation_call(program_id@, proposer@, keys@, threshold),
            Ok(None) => {
                &&& exists|keys: Vec<Pubkey>|
                    0 < threshold <= keys@.len() && #[trigger] reads_keys(
                        list_items(text@),
                        Ok(keys),
                    )
                &&& !can_govern(program_id@)
            },
            Err(AdminRefusal::ImpossibleThreshold { threshold: t, validators: n }) => {
                &&& !(0 < threshold <= n)
                &&& t == threshold
                &&& exists|keys: Vec<Pubkey>|
                    keys@.len() == n && #[trigger] reads_keys(list_items(text@), Ok(keys))
            },
            Err(e) => reads_keys(list_items(text@), Err(e)),
        },
{
    match rotation(text, threshold) {
        Ok(keys) => {
            let ix: Option<Instruction> = try_propose_rotation_instruction(
                program_id,
                proposer,
                keys.as_slice(),
                threshold,
            );
            assert(reads_keys(list_items(text@), Ok(keys)));
            Ok(ix)
        },
        Err(e) => Err(e),
    }
}

/// What an operator states to stand the bridge up. None of it has a default.
#[derive(Debug, PartialEq, Eq)]
pub struct InitializeArgs {
    /// Comma-separated keys.
    pub validators: String,
    pub threshold: u8,
    pub timelock_secs: i64,
    pub max_supply: u64,
    pub min_deposit: u64,
    pub min_withdrawal: u64,
}

/// Whether the call that stands the bridge up is made, or refused, as it has to
/// be.
pub open spec fn starts(
    program: Seq<u8>,
    authority: Seq<u8>,
    args: InitializeArgs,
    result: Result<Option<Instruction>, AdminRefusal>,
) -> bool {
    let items = list_items(args.validators@);
    match result {
        Ok(Some(ix)) => {
            &&& can_start(program)
            &&& args.timelock_secs > 0
            &&& args.max_supply > 0
            &&& exists|keys: Vec<Pubkey>|
                0 < args.threshold <= keys@.len() && #[trigger] reads_keys(items, Ok(keys))
                    && ix@ == initialize_call(
                    program,
                    authority,
                    keys@,
                    args.threshold,
                    args.min_deposit,
                    args.min_withdrawal,
                    args.timelock_secs,
                    args.max_supply,
                )
        },
        Ok(None) => {
            &&& args.timelock_secs > 0
            &&& args.max_supply > 0
            &&& exists|keys: Vec<Pubkey>|
                0 < args.threshold <= keys@.len() && #[trigger] reads_keys(items, Ok(keys))
            &&& !can_start(program)
        },
        Err(AdminRefusal::ImpossibleThreshold { threshold: t, validators: n }) => {
            &&& !(0 < args.threshold <= n)
            &&& t == args.threshold
            &&& exists|keys: Vec<Pubkey>|
                keys@.len() == n && #[trigger] reads_keys(items, Ok(keys))
        },
        Err(AdminRefusal::NoTimelock) => {
            &&& args.timelock_secs <= 0
            &&& exists|keys: Vec<Pubkey>|
                0 < args.threshold <= keys@.len() && #[trigger] reads_keys(items, Ok(keys))
        },
        Err(AdminRefusal::NoInitialCap) => {
            &&& args.timelock_secs > 0
            &&& args.max_supply == 0
            &&& exists|keys: Vec<Pubkey>|
                0 < args.threshold <= keys@.len() && #[trigger] reads_keys(items, Ok(keys))
        },
        Err(e) => reads_keys(items, Err(e)),
    }
}

/// The call that stands the bridge up. Nothing where an address that it needs
/// does not exist.
pub fn initialize(program_id: &Pubkey, authority: &Pubkey, args: &InitializeArgs) -> (result: Result<
    Option<Instruction>,
    AdminRefusal,
>)
    ensures
        starts(program_id@, authority@, *args, result),
{
    let validators: Vec<Pubkey> = match rotation(args.validators.as_str(), args.threshold) {
        Ok(keys) => keys,
        Err(e) => {
            return Err(e);
        },
    };
    assert(reads_keys(list_items(args.validators@), Ok(validators)));
    if args.timelock_secs <= 0 {
        return Err(AdminRefusal::NoTimelock);
    }
    if args.max_supply == 0 {
        return Err(AdminRefusal::NoInitialCap);
    }
    Ok(
        try_initialize_instruction(
            program_id,
            authority,
            validators.as_slice(),
            args.threshold,
            args.min_deposit,
            args.min_withdrawal,
            args.timelock_secs,
            args.max_supply,
        ),
    )
}

/// Refuses a raise of the supply cap to nothing.
pub fn check_raise(new_max: u64) -> (result: Result<(), AdminRefusal>)
    ensures
        result == if new_max == 0 {
            Err(AdminRefusal::ZeroCap)
        } else {
            Ok(())
        },
{
    if new_max == 0 {
        Err(AdminRefusal::ZeroCap)
    } else {
        Ok(())
    }
}

/// Refuses to lower the supply cap to nothing.
pub fn lower_tvl_cap(new_max: u64) -> (result: Result<(), AdminRefusal>)
    ensures
        result == if new_max == 0 {
            Err(AdminRefusal::ZeroLowerCap)
        } else {
            Ok(())
        },
{
    if new_max == 0 {
        Err(AdminRefusal::ZeroLowerCap)
    } else {
        Ok(())
    }
}

/// Refuses to create the wrapped mint twice.
pub fn create_wrapped_mint(config: &BridgeConfigSnapshot) -> (result: Result<(), AdminRefusal>)
    ensures
        match result {
            Ok(_) => config.wrapped_mint@ == Seq::new(32, |i: int| 0u8),
            Err(e) => config.wrapped_mint@ != Seq::new(32, |i: int| 0u8) && e
                == AdminRefusal::MintExists(config.wrapped_mint),
        },
{
    if config.mint_is_configured() {
        Err(AdminRefusal::MintExists(config.wrapped_mint))
    } else {
        Ok(())
    }
}

/// Refuses to accept the admin role unless it was offered to this very key.
pub fn accept_admin(config: &BridgeConfigSnapshot, key: &Pubkey) -> (result: Result<
    (),
    AdminRefusal,
>)
    ensures
        match config.pending_admin {
            None => result == Err::<(), AdminRefusal>(AdminRefusal::NoHandover),
            Some(pending) => result == if pending@ != key@ {
                Err(AdminRefusal::NotTheIncomingAdmin { pending, key: *key })
            } else {
                Ok(())
            },
        },
{
    match config.pending_admin {
        None => Err(AdminRefusal::NoHandover),
        Some(pending) => {
            if !pending.same_as(key) {
                Err(AdminRefusal::NotTheIncomingAdmin { pending, key: *key })
            } else {
                Ok(())
            }
        },
    }
}

/// What a command expects to read back once its transaction has confirmed.
#[derive(Debug, Clone, Copy, PartialEq, Eq)]
pub enum Expectation {
    /// The bridge is paused, or is not.
    Paused(bool),
    Cap(u64),
    Mint(Pubkey),
    /// The key is nominated and has not accepted.
    Nominated(Pubkey),
    /// The key is the admin and no handover is under way.
    Admin(Pubkey),
}

impl Expectation {
    /// Whether a configuration is what was expected.
    pub open spec fn met_by(self, config: BridgeConfigSnapshot) -> bool {
        match self {
            Expectation::Paused(paused) => config.paused == paused,
            Expectation::Cap(max) => config.max_wrapped_supply == max,
            Expectation::Mint(mint) => config.wrapped_mint@ != Seq::new(32, |i: int| 0u8)
                && config.wrapped_mint@ == mint@,
            Expectation::Nominated(key) => config.pending_admin matches Some(p) && p@ == key@,
            Expectation::Admin(key) => config.admin@ == key@ && config.pending_admin is None,
        }
    }

    /// Whether a configuration is what was expected.
    pub fn holds(&self, config: &BridgeConfigSnapshot) -> (met: bool)
        ensures
            met == self.met_by(*config),
    {
        match self {
            Expectation::Paused(paused) => config.paused == *paused,
            Expectation::Cap(max) => config.max_wrapped_supply == *max,
            Expectation::Mint(mint) => config.mint_is_configured() && config.wrapped_mint.same_as(
                mint,
            ),
            Expectation::Nominated(key) => match &config.pending_admin {
                Some(pending) => pending.same_as(key),
                None => false,
            },
            Expectation::Admin(key) => config.admin.same_as(key) && config.pending_admin.is_none(),
        }
    }
}

/// What is said where an action did not take effect. It names the signature,
/// the action, the commitment that was required and the reason.
pub open spec fn not_effective_text(
    what: Seq<char>,
    commitment: Seq<char>,
    failure: ConfirmFailure,
) -> Seq<char> {
    what + " did NOT take effect.\n  signature:  "@ + base58_text(failure.about().bytes@)
        + "\n  commitment: "@ + commitment + "\n  reason:     "@ + failure.text()
        + "\n\nThe bridge is in whatever state it was before this command. Verify with `glc-admin show-config` before retrying."@
}

/// What an operator reads where an action was not confirmed.
pub fn confirm(what: &str, commitment: &str, failure: &ConfirmFailure) -> (m: String)
    ensures
        m@ == not_effective_text(what@, commitment@, *failure),
{
    let mut out: String = String::from_str(what);
    out.append(" did NOT take effect.\n  signature:  ");
    out.append(signature_text(&failure.signature()).as_str());
    out.append("\n  commitment: ");
    out.append(commitment);
    out.append("\n  reason:     ");
    out.append(failure.message().as_str());
    out.append(
        "\n\nThe bridge is in whatever state it was before this command. Verify with `glc-admin show-config` before retrying.",
    );
    out
}

/// What is said where a confirmed action did not have its effect, or where the
/// effect could not be read.
pub open spec fn postcondition_text(
    what: Seq<char>,
    description: Seq<char>,
    observed: Result<bool, String>,
) -> Seq<char> {
    match observed {
        Ok(_) => what
            + " confirmed on chain, but the expected result was NOT observed: "@ + description
            + ". This is a contradiction — the transaction succeeded yet the state does not reflect it. Do not retry blindly; inspect with `glc-admin show-config`."@,
        Err(why) => what + " confirmed on chain, but its result could not be read back ("@
            + description + "): "@ + why@
            + ". The action most likely took effect; confirm with `glc-admin show-config` before retrying."@,
    }
}

/// Holds an action to its effect. Confirmation proves that the transaction
/// ran; it does not prove that the operator got what they meant.
pub fn verify_postcondition(what: &str, description: &str, observed: Result<bool, String>) -> (result:
    Result<(), String>)
    ensures
        match result {
            Ok(_) => observed == Ok::<bool, String>(true),
            Err(m) => observed != Ok::<bool, String>(true) && m@ == postcondition_text(
                what@,
                description@,
                observed,
            ),
        },
{
    let mut out: String = String::from_str(what);
    match observed {
        Ok(true) => {
            return Ok(());
        },
        Ok(false) => {
            out.append(" confirmed on chain, but the expected result was NOT observed: ");
            out.append(description);
            out.append(
                ". This is a contradiction — the transaction succeeded yet the state does not reflect it. Do not retry blindly; inspect with `glc-admin show-config`.",
            );
        },
        Err(why) => {
            out.append(" confirmed on chain, but its result could not be read back (");
            out.append(description);
            out.append("): ");
            out.append(why.as_str());
            out.append(
                ". The action most likely took effect; confirm with `glc-admin show-config` before retrying.",
            );
        },
    }
    Err(out)
}

/// Reads the pending governance action from its account. The program closes
/// the account when the action is executed or cancelled, so an account that is
/// absent or empty means that nothing is pending.
pub fn pending_action(account: Option<&[u8]>) -> (result: Result<
    Option<PendingActionSnapshot>,
    SolanaRpcError,
>)
    ensures
        match account {
            Some(data) if data@.len() > 0 => match (result, pending_action_in(data@)) {
                (Ok(Some(got)), Ok(fields)) => got@ == fields,
                (Err(e), Err(text)) => says(e, text),
                _ => false,
            },
            _ => result == Ok::<Option<PendingActionSnapshot>, SolanaRpcError>(None),
        },
{
    match account {
        Some(data) => {
            if data.len() == 0 {
                return Ok(None);
            }
            match decode_pending_action(data) {
                Ok(action) => Ok(Some(action)),
                Err(e) => Err(e),
            }
        },
        None => Ok(None),
    }
}

/// What a payout row says of its signing.
#[derive(Debug, PartialEq, Eq)]
pub struct PayoutSigning {
    pub is_signed: bool,
    pub txid_hex: Option<String>,
    pub quorum_attempt: u32,
    pub amounts: Amounts,
}

/// Whether a list of positions is read as the entries are, up to the first
/// that is none.
pub open spec fn reads_positions(
    items: Seq<Seq<char>>,
    result: Result<Vec<u8>, AdminRefusal>,
) -> bool {
    match result {
        Ok(positions) => {
            &&& positions@.len() == items.len()
            &&& forall|i: int|
                0 <= i < items.len() ==> number_read(#[trigger] items[i], 255) == Ok::<
                    nat,
                    NumberError,
                >(positions@[i] as nat)
        },
        Err(AdminRefusal::NotAPosition { item, why }) => exists|i: int|
            0 <= i < items.len() && item@ == #[trigger] items[i] && number_read(items[i], 255)
                == Err::<nat, NumberError>(why) && forall|j: int|
                0 <= j < i ==> number_read(#[trigger] items[j], 255) is Ok,
        Err(_) => false,
    }
}

/// Reads a comma-separated list of positions in the vault's signer list.
pub fn parse_quorum(text: &str) -> (result: Result<Vec<u8>, AdminRefusal>)
    ensures
        reads_positions(list_items(text@), result),
{
    let items: Vec<String> = split_list(text);
    let ghost wanted = list_items(text@);
    let mut positions: Vec<u8> = Vec::new();
    let mut i: usize = 0;
    while i < items.len()
        invariant
            i <= items@.len(),
            wanted == texts(items@),
            wanted == list_items(text@),
            positions@.len() == i,
            forall|j: int|
                0 <= j < i ==> number_read(#[trigger] wanted[j], 255) == Ok::<nat, NumberError>(
                    positions@[j] as nat,
                ),
        decreases items@.len() - i,
    {
        assert(wanted[i as int] == items@[i as int]@);
        match parse_number(items[i].as_str(), 255) {
            Ok(n) => {
                positions.push(n as u8);
            },
            Err(why) => {
                return Err(AdminRefusal::NotAPosition { item: items[i].clone(), why });
            },
        }
        i = i + 1;
    }
    Ok(positions)
}

/// Designates the signers of a payout anew, given what the vault says of the
/// proposed quorum: the intent that the new signers have to agree on.
///
/// The new quorum is stated, never derived: the operator knows which signer is
/// unavailable. A signed payout is never reassigned, because its transaction
/// may already be known to the network and another quorum gives another id.
pub fn reassign_quorum(
    config: &WithdrawalConfig,
    index: i64,
    quorum: Vec<u8>,
    valid: Result<(), String>,
    payout: &Option<PayoutSigning>,
    withdrawal: &Option<WithdrawalRow>,
    inputs: Vec<VaultUtxo>,
) -> (result: Result<PayoutIntent, AdminRefusal>)
    requires
        payout matches Some(p) ==> p.quorum_attempt < u32::MAX,
    ensures
        match (valid, *payout) {
            (Err(why), _) => result == Err::<PayoutIntent, AdminRefusal>(
                AdminRefusal::InvalidQuorum(why),
            ),
            (Ok(_), None) => result == Err::<PayoutIntent, AdminRefusal>(
                AdminRefusal::NoPayout(index),
            ),
            (Ok(_), Some(p)) => if p.is_signed {
                result == Err::<PayoutIntent, AdminRefusal>(
                    AdminRefusal::AlreadySigned { index, txid_hex: p.txid_hex },
                )
            } else {
                match *withdrawal {
                    None => result == Err::<PayoutIntent, AdminRefusal>(
                        AdminRefusal::NoWithdrawal(index),
                    ),
                    Some(w) => result matches Ok(intent) && intends(
                        *config,
                        index,
                        w,
                        p.amounts,
                        p.quorum_attempt + 1,
                        quorum,
                        inputs,
                        intent,
                    ),
                }
            },
        },
{
    match valid {
        Err(why) => {
            return Err(AdminRefusal::InvalidQuorum(why));
        },
        Ok(_) => {},
    }
    match payout {
        None => Err(AdminRefusal::NoPayout(index)),
        Some(p) => {
            if p.is_signed {
                let txid_hex: Option<String> = match &p.txid_hex {
                    Some(txid) => Some(txid.clone()),
                    None => None,
                };
                return Err(AdminRefusal::AlreadySigned { index, txid_hex });
            }
            match withdrawal {
                None => Err(AdminRefusal::NoWithdrawal(index)),
                Some(w) => Ok(
                    payout_intent(
                        config,
                        index,
                        w,
                        p.amounts,
                        p.quorum_attempt + 1,
                        quorum,
                        inputs,
                    ),
                ),
            }
        },
    }
}

/// A list of keys is read exactly where every entry is a key, into as many keys
/// as it has entries, in their order. What is refused is the first entry that is
/// none.
pub proof fn every_listed_key_is_read(
    items: Seq<Seq<char>>,
    result: Result<Vec<Pubkey>, AdminRefusal>,
)
    requires
        reads_keys(items, result),
    ensures
        result is Ok <==> forall|i: int| 0 <= i < items.len() ==> key_in(#[trigger] items[i]) is Ok,
        result matches Ok(keys) ==> keys@.len() == items.len() && forall|i: int|
            0 <= i < items.len() ==> key_in(#[trigger] items[i]) == Ok::<Seq<u8>, Seq<char>>(
                keys@[i]@,
            ),
        result matches Err(e) ==> exists|i: int|
            0 <= i < items.len() && key_in(#[trigger] items[i]) is Err && (e
                matches AdminRefusal::NotAKey { item, why } && item@ == items[i] && why@ == key_in(
                items[i],
            )->Err_0) && forall|j: int| 0 <= j < i ==> key_in(#[trigger] items[j]) is Ok,
{
}

/// A list of positions is read exactly where every entry is a number from 0 to
/// 255, into as many positions as it has entries, in their order. What is
/// refused is the first entry that is none.
pub proof fn every_listed_position_is_read(
    items: Seq<Seq<char>>,
    result: Result<Vec<u8>, AdminRefusal>,
)
    requires
        reads_positions(items, result),
    ensures
        result is Ok <==> forall|i: int|
            0 <= i < items.len() ==> number_read(#[trigger] items[i], 255) is Ok,
        result matches Ok(positions) ==> positions@.len() == items.len() && forall|i: int|
            0 <= i < items.len() ==> number_read(#[trigger] items[i], 255) == Ok::<
                nat,
                NumberError,
            >(positions@[i] as nat),
        result matches Err(e) ==> exists|i: int|
            0 <= i < items.len() && number_read(#[trigger] items[i], 255) is Err && (e
                matches AdminRefusal::NotAPosition { item, why } && item@ == items[i] && why
                == number_read(items[i], 255)->Err_0) && forall|j: int|
                0 <= j < i ==> number_read(#[trigger] items[j], 255) is Ok,
{
}

/// What a command expects is met by the value that it asked for and by no other.
/// A nomination is met only while it is pending, and a handover only once
/// nothing is.
pub proof fn an_expectation_is_met_by_what_was_asked_for(config: BridgeConfigSnapshot, key: Pubkey)
    ensures
        Expectation::Paused(true).met_by(config) <==> config.paused,
        Expectation::Paused(false).met_by(config) <==> !config.paused,
        forall|max: u64| #[trigger]
            Expectation::Cap(max).met_by(config) <==> max == config.max_wrapped_supply,
        Expectation::Mint(key).met_by(config) <==> config.wrapped_mint@ == key@
            && config.wrapped_mint@ != Seq::new(32, |i: int| 0u8),
        Expectation::Nominated(key).met_by(config) <==> (config.pending_admin matches Some(p) && p@
            == key@),
        Expectation::Admin(key).met_by(config) <==> config.admin@ == key@ && config.pending_admin
            == None::<Pubkey>,
        !(Expectation::Nominated(key).met_by(config) && Expectation::Admin(key).met_by(config)),
{
}

/// What an operator reads of an action that did not take effect names the
/// action, the transaction, the commitment and the reason.
pub proof fn a_failed_action_is_named(
    what: Seq<char>,
    commitment: Seq<char>,
    failure: ConfirmFailure,
)
    ensures
        shows(not_effective_text(what, commitment, failure), what),
        shows(not_effective_text(what, commitment, failure), commitment),
        shows(not_effective_text(what, commitment, failure), failure.text()),
        shows(
            not_effective_text(what, commitment, failure),
            base58_text(failure.about().bytes@),
        ),
{
    let text = not_effective_text(what, commitment, failure);
    let a = " did NOT take effect.\n  signature:  "@;
    let signature = base58_text(failure.about().bytes@);
    let b = "\n  commitment: "@;
    let c = "\n  reason:     "@;
    let d =
        "\n\nThe bridge is in whatever state it was before this command. Verify with `glc-admin show-config` before retrying."@;
    let reason = failure.text();
    lemma_shows_within(Seq::empty(), what, a + signature + b + commitment + c + reason + d);
    assert(Seq::<char>::empty() + what + (a + signature + b + commitment + c + reason + d)
        =~= text);
    lemma_shows_within(what + a, signature, b + commitment + c + reason + d);
    assert(what + a + signature + (b + commitment + c + reason + d) =~= text);
    lemma_shows_within(what + a + signature + b, commitment, c + reason + d);
    assert(what + a + signature + b + commitment + (c + reason + d) =~= text);
    lemma_shows_within(what + a + signature + b + commitment + c, reason, d);
}

/// A threshold is accepted exactly where it asks for somebody and for no more
/// than there are.
pub proof fn a_threshold_is_accepted_where_it_can_be_reached(
    threshold: u8,
    validators: usize,
    result: Result<(), AdminRefusal>,
)
    requires
        call_ensures(check_threshold, (threshold, validators), result),
    ensures
        result is Ok <==> threshold >= 1 && threshold <= validators,
{
}

/// The admin role is accepted exactly by the key that it is offered to.
pub proof fn only_the_nominated_key_accepts(
    config: BridgeConfigSnapshot,
    key: Pubkey,
    result: Result<(), AdminRefusal>,
)
    requires
        call_ensures(accept_admin, (&config, &key), result),
    ensures
        result is Ok <==> (config.pending_admin matches Some(pending) && pending@ == key@),
{
}

/// A rotation is read exactly where every listed entry is a key and the threshold
/// can be reached by that many validators.
pub proof fn a_rotation_is_read_where_its_threshold_can_be_reached(
    items: Seq<Seq<char>>,
    threshold: u8,
    result: Result<Vec<Pubkey>, AdminRefusal>,
)
    requires
        reads_rotation(items, threshold, result),
    ensures
        ({
            let keys = forall|i: int| 0 <= i < items.len() ==> key_in(#[trigger] items[i]) is Ok;
            &&& result is Ok <==> keys && 1 <= threshold <= items.len()
            &&& (result matches Ok(read) ==> read@.len() == items.len() && forall|i: int|
                0 <= i < items.len() ==> key_in(#[trigger] items[i]) == Ok::<Seq<u8>, Seq<char>>(
                    read@[i]@,
                ))
            &&& (result matches Err(AdminRefusal::ImpossibleThreshold { validators, .. })
                ==> validators == items.len())
        }),
{
    match result {
        Ok(_) => {
            every_listed_key_is_read(items, result);
        },
        Err(AdminRefusal::ImpossibleThreshold { threshold: t, validators: n }) => {
            let keys = choose|keys: Vec<Pubkey>|
                keys@.len() == n && #[trigger] reads_keys(items, Ok(keys));
            every_listed_key_is_read(items, Ok(keys));
        },
        Err(_) => {
            every_listed_key_is_read(items, result);
        },
    }
}

/// The bridge is stood up only with keys that can reach the threshold, a timelock
/// and a cap, and where all of that is given nothing but a missing address is in
/// the way.
pub proof fn the_bridge_is_stood_up_only_with_every_bound(
    program: Seq<u8>,
    authority: Seq<u8>,
    args: InitializeArgs,
    result: Result<Option<Instruction>, AdminRefusal>,
)
    requires
        starts(program, authority, args, result),
    ensures
        ({
            let items = list_items(args.validators@);
            let keys = forall|i: int| 0 <= i < items.len() ==> key_in(#[trigger] items[i]) is Ok;
            let bounded = keys && 1 <= args.threshold <= items.len() && args.timelock_secs > 0
                && args.max_supply > 0;
            &&& result is Ok <==> bounded
            &&& (result matches Ok(Some(_))) <==> bounded && can_start(program)
            &&& (result matches Err(AdminRefusal::NoTimelock) ==> args.timelock_secs <= 0)
            &&& (result matches Err(AdminRefusal::NoInitialCap) ==> args.max_supply == 0)
        }),
{
    let items = list_items(args.validators@);
    match result {
        Err(AdminRefusal::ImpossibleThreshold { threshold: t, validators: n }) => {
            let keys = choose|keys: Vec<Pubkey>|
                keys@.len() == n && #[trigger] reads_keys(items, Ok(keys));
            every_listed_key_is_read(items, Ok(keys));
        },
        Err(AdminRefusal::NoTimelock) | Err(AdminRefusal::NoInitialCap) | Ok(_) => {
            let keys = choose|keys: Vec<Pubkey>|
                0 < args.threshold <= keys@.len() && #[trigger] reads_keys(items, Ok(keys));
            every_listed_key_is_read(items, Ok(keys));
        },
        Err(e) => {
            every_listed_key_is_read(items, Err(e));
        },
    }
}

/// A cap of nothing is refused, as a raise and as a cut, and no other is.
pub proof fn a_cap_is_never_nothing(
    new_max: u64,
    raised: Result<(), AdminRefusal>,
    lowered: Result<(), AdminRefusal>,
)
    requires
        call_ensures(check_raise, (new_max,), raised),
        call_ensures(lower_tvl_cap, (new_max,), lowered),
    ensures
        raised is Ok <==> new_max > 0,
        lowered is Ok <==> new_max > 0,
        raised is Err ==> raised == Err::<(), _>(AdminRefusal::ZeroCap),
        lowered is Err ==> lowered == Err::<(), _>(AdminRefusal::ZeroLowerCap),
{
}

/// The mint is created exactly where there is none yet.
pub proof fn the_mint_is_created_once(
    config: BridgeConfigSnapshot,
    result: Result<(), AdminRefusal>,
)
    requires
        call_ensures(create_wrapped_mint, (&config,), result),
    ensures
        result is Ok <==> forall|i: int| 0 <= i < 32 ==> (#[trigger] config.wrapped_mint@[i]) == 0,
        result matches Err(e) ==> e == AdminRefusal::MintExists(config.wrapped_mint),
{
    if forall|i: int| 0 <= i < 32 ==> (#[trigger] config.wrapped_mint@[i]) == 0 {
        assert(config.wrapped_mint@ =~= Seq::new(32, |i: int| 0u8));
    }
}

/// An action has had its effect exactly where it was seen to.
pub proof fn only_an_observed_effect_counts(
    what: &str,
    description: &str,
    observed: Result<bool, String>,
    result: Result<(), String>,
)
    requires
        call_ensures(verify_postcondition, (what, description, observed), result),
    ensures
        result is Ok <==> (observed matches Ok(seen) && seen),
{
}

/// Nothing is pending exactly where the account is absent or empty; what is there
/// is read in full or refused.
pub proof fn an_empty_account_means_that_nothing_is_pending(
    account: Option<&[u8]>,
    result: Result<Option<PendingActionSnapshot>, SolanaRpcError>,
)
    requires
        call_ensures(pending_action, (account,), result),
    ensures
        (result matches Ok(None)) <==> !(account matches Some(data) && data@.len() > 0),
        (result matches Ok(Some(_))) <==> (account matches Some(data) && data@.len() > 0
            && pending_action_in(data@) is Ok),
        result matches Ok(Some(found)) ==> (account matches Some(data) && pending_action_in(data@)
            == Ok::<_, Seq<char>>(found@)),
{
}

/// A payout is reassigned exactly where the new signers are valid, the payout is
/// there and unsigned, and its withdrawal is there. What changes is who signs:
/// the attempt is the next one, and what is paid stays.
pub proof fn only_an_unsigned_payout_is_reassigned(
    config: WithdrawalConfig,
    index: i64,
    quorum: Vec<u8>,
    valid: Result<(), String>,
    payout: Option<PayoutSigning>,
    withdrawal: Option<WithdrawalRow>,
    inputs: Vec<VaultUtxo>,
    result: Result<PayoutIntent, AdminRefusal>,
)
    requires
        payout matches Some(p) ==> p.quorum_attempt < u32::MAX,
        call_ensures(
            reassign_quorum,
            (&config, index, quorum, valid, &payout, &withdrawal, inputs),
            result,
        ),
    ensures
        result is Ok <==> valid is Ok && (payout matches Some(p) && !p.is_signed)
            && withdrawal is Some,
        result matches Ok(intent) ==> {
            &&& payout matches Some(p)
            &&& intent.quorum_attempt == p.quorum_attempt + 1
            &&& intent.quorum_indices == quorum
            &&& intent.inputs == inputs
            &&& intent.withdrawal_index == index
            &&& intent.payout_atomic == p.amounts.payout_atomic
            &&& intent.fee_atomic == p.amounts.fee_atomic
            &&& intent.change_atomic == p.amounts.change_atomic
            &&& withdrawal matches Some(w)
            &&& intent.dest_hash160 == w.glc_address_hash160
        },
        (result matches Err(AdminRefusal::AlreadySigned { .. })) <==> valid is Ok && (payout
            matches Some(p) && p.is_signed),
        (result matches Err(AdminRefusal::NoPayout(_))) <==> valid is Ok && payout is None,
        (result matches Err(AdminRefusal::InvalidQuorum(_))) <==> valid is Err,
{
}

/// What an operator reads of a refused command names what it was refused for.
pub proof fn a_refused_operator_reads_what_was_refused(
    threshold: u8,
    validators: usize,
    item: String,
    why: String,
    index: i64,
    txid: String,
    pending: Pubkey,
    key: Pubkey,
)
    ensures
        ({
            let many = AdminRefusal::ImpossibleThreshold { threshold, validators }.text();
            let bad = AdminRefusal::NotAKey { item, why }.text();
            let signed = AdminRefusal::AlreadySigned { index, txid_hex: Some(txid) }.text();
            let other = AdminRefusal::NotTheIncomingAdmin { pending, key }.text();
            &&& shows(many, decimal(threshold as nat)) && shows(many, decimal(validators as nat))
            &&& shows(bad, quoted(item@)) && shows(bad, why@)
            &&& shows(signed, decimal_int(index as int)) && shows(signed, txid@)
            &&& shows(other, base58_text(pending@)) && shows(other, base58_text(key@))
        }),
{
    let t = decimal(threshold as nat);
    let n = decimal(validators as nat);
    lemma_shows_both("threshold "@, t, " is impossible for "@, n);
    let many = "threshold "@ + t + " is impossible for "@ + n;
    lemma_shows_going_on(many, t, " validators"@);
    lemma_shows_going_on(many, n, " validators"@);
    let q = quoted(item@);
    lemma_shows_at_the_ends(q, " is not a pubkey: "@);
    lemma_shows_going_on(q + " is not a pubkey: "@, q, why@);
    lemma_shows_at_the_ends(why@, q + " is not a pubkey: "@);
    let i = decimal_int(index as int);
    lemma_shows_both("withdrawal "@, i, " is already signed (txid "@, txid@);
    let signed = "withdrawal "@ + i + " is already signed (txid "@ + txid@;
    let advice = ") — rebroadcast it rather than reassigning; reassignment changes the txid"@;
    lemma_shows_going_on(signed, i, advice);
    lemma_shows_going_on(signed, txid@, advice);
    let p = base58_text(pending@);
    let k = base58_text(key@);
    lemma_shows_both("the pending admin is "@, p, ", but GLC_ADMIN_KEYPAIR_PATH holds "@, k);
    let other = "the pending admin is "@ + p + ", but GLC_ADMIN_KEYPAIR_PATH holds "@ + k;
    lemma_shows_going_on(other, p, " — this command must be run by the INCOMING admin"@);
    lemma_shows_going_on(other, k, " — this command must be run by the INCOMING admin"@);
}

} // verus!
