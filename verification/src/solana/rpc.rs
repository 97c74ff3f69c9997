//! Reading accounts: errors, decoders, and when to ask again.
//!
//! Accounts are decoded by hand at computed offsets. A field that follows an
//! optional or a variable-length one is never read from a fixed offset.

use crate::bytes::{
    from_bits64, from_twos_complement64, le_bytes, le_value, lemma_le_bytes_len,
    lemma_le_value_of_le_bytes, lemma_pow256, read_le, twos_complement64,
};
use crate::solana::instruction::{borsh_keys, key_bytes};
use crate::solana::pubkey::Pubkey;
use crate::text::{chars_of, decimal, push_decimal, string_of};
use vstd::prelude::*;
use vstd::utf8::{
    decode_utf8, encode_utf8, encode_utf8_decode_utf8, encode_utf8_valid_utf8, valid_utf8,
};

verus! {

/// Why the chain could not be read.
#[derive(Debug, Clone, PartialEq, Eq)]
pub enum SolanaRpcError {
    Transport(String),
    Method(String),
    Malformed(String),
}

impl SolanaRpcError {
    /// What an operator reads.
    pub open spec fn text(self) -> Seq<char> {
        match self {
            SolanaRpcError::Transport(e) => "transport error contacting Solana RPC: "@ + e@,
            SolanaRpcError::Method(e) => "Solana RPC returned an error: "@ + e@,
            SolanaRpcError::Malformed(e) => "malformed account data: "@ + e@,
        }
    }

    /// What an operator reads.
    pub fn message(&self) -> (m: String)
        ensures
            m@ == self.text(),
    {
        match self {
            SolanaRpcError::Transport(e) => {
                let mut m: String = String::from_str("transport error contacting Solana RPC: ");
                m.append(e.as_str());
                m
            },
            SolanaRpcError::Method(e) => {
                let mut m: String = String::from_str("Solana RPC returned an error: ");
                m.append(e.as_str());
                m
            },
            SolanaRpcError::Malformed(e) => {
                let mut m: String = String::from_str("malformed account data: ");
                m.append(e.as_str());
                m
            },
        }
    }

    /// Only transport-level failures are meaningfully retriable.
    pub fn is_retriable(&self) -> (retriable: bool)
        ensures
            retriable == (self is Transport),
    {
        match self {
            SolanaRpcError::Transport(_) => true,
            _ => false,
        }
    }
}

/// A failed call: one that never reached the node, or one that it refused.
pub fn classify_client_error(never_reached: bool, text: String) -> (e: SolanaRpcError)
    ensures
        e == if never_reached {
            SolanaRpcError::Transport(text)
        } else {
            SolanaRpcError::Method(text)
        },
{
    if never_reached {
        SolanaRpcError::Transport(text)
    } else {
        SolanaRpcError::Method(text)
    }
}

/// Two to the power `n`.
pub open spec fn pow2(n: nat) -> nat
    decreases n,
{
    if n == 0 {
        1
    } else {
        2 * pow2((n - 1) as nat)
    }
}

/// After a failed attempt, counted from zero: how many milliseconds to wait
/// before the next one, or nothing where the error stands.
///
/// Only a transport failure is retried, at most `max_attempts` calls are made,
/// and the wait doubles each time.
pub fn retry_delay_ms(e: &SolanaRpcError, attempt: u32, max_attempts: u32) -> (delay: Option<u64>)
    requires
        e is Transport && attempt + 1 < max_attempts ==> attempt <= 56,
    ensures
        match delay {
            Some(ms) => e is Transport && attempt + 1 < max_attempts && ms == 200 * pow2(
                attempt as nat,
            ),
            None => !(e is Transport && attempt + 1 < max_attempts),
        },
{
    if !e.is_retriable() || attempt >= max_attempts || attempt + 1 >= max_attempts {
        return None;
    }
    let mut delay: u64 = 200;
    let mut i: u32 = 0;
    while i < attempt
        invariant
            i <= attempt <= 56,
            delay == 200 * pow2(i as nat),
        decreases attempt - i,
    {
        proof {
            lemma_pow2_bound(i as nat);
        }
        delay = delay * 2;
        i = i + 1;
    }
    Some(delay)
}

proof fn lemma_pow2_bound(n: nat)
    requires
        n <= 55,
    ensures
        pow2(n) <= 0x80_0000_0000_0000,
{
    lemma_pow2_monotone(n, 55);
    assert(pow2(55) == 0x80_0000_0000_0000) by {
        reveal_with_fuel(pow2, 56);
    }
}

proof fn lemma_pow2_monotone(a: nat, b: nat)
    requires
        a <= b,
    ensures
        pow2(a) <= pow2(b),
    decreases b,
{
    if a < b {
        lemma_pow2_monotone(a, (b - 1) as nat);
    }
}

/// Bytes before the fields of an account.
pub const DISCRIMINATOR_LEN: usize = 8;

/// The unsigned integer in `width` bytes at `at`.
pub open spec fn uint_at(data: Seq<u8>, at: int, width: int) -> nat {
    le_value(data.subrange(at, at + width))
}

/// The signed integer in eight bytes at `at`.
pub open spec fn int_at(data: Seq<u8>, at: int) -> int {
    from_twos_complement64(uint_at(data, at, 8))
}

/// The key at `at`.
pub open spec fn key_at(data: Seq<u8>, at: int) -> Seq<u8> {
    data.subrange(at, at + 32)
}

/// The `n` keys from `at` on.
pub open spec fn keys_at(data: Seq<u8>, at: int, n: nat) -> Seq<Seq<u8>> {
    Seq::new(n, |i: int| key_at(data, at + 32 * i))
}

/// The bytes of some keys.
pub open spec fn key_views(keys: Seq<Pubkey>) -> Seq<Seq<u8>> {
    keys.map_values(|key: Pubkey| key@)
}

fn read_key(data: &[u8], at: usize) -> (key: Pubkey)
    requires
        at + 32 <= data@.len(),
    ensures
        key@ == key_at(data@, at as int),
{
    let mut bytes: [u8; 32] = [0u8; 32];
    let end: usize = data.len();
    let mut i: usize = 0;
    while i < 32
        invariant
            i <= 32,
            at + 32 <= data@.len() == end,
            forall|j: int| 0 <= j < i ==> bytes@[j] == data@[at + j],
        decreases 32 - i,
    {
        bytes[i] = data[at + i];
        i = i + 1;
    }
    let key: Pubkey = Pubkey { bytes };
    assert(key@ =~= key_at(data@, at as int));
    key
}

/// Reads `n` keys from `at` on, or nothing where the data ends before them.
fn read_keys(data: &[u8], at: usize, n: u64) -> (keys: Option<Vec<Pubkey>>)
    requires
        at <= data@.len(),
    ensures
        match keys {
            Some(k) => at + 32 * n <= data@.len() && key_views(k@) == keys_at(
                data@,
                at as int,
                n as nat,
            ),
            None => at + 32 * n > data@.len(),
        },
{
    let mut keys: Vec<Pubkey> = Vec::new();
    let mut offset: usize = at;
    let mut i: u64 = 0;
    while i < n
        invariant
            i <= n,
            offset == at + 32 * i,
            offset <= data@.len(),
            keys@.len() == i,
            forall|j: int| 0 <= j < i ==> (#[trigger] keys@[j])@ == key_at(data@, at + 32 * j),
        decreases n - i,
    {
        if data.len() - offset < 32 {
            return None;
        }
        keys.push(read_key(data, offset));
        offset = offset + 32;
        i = i + 1;
    }
    assert(key_views(keys@) =~= keys_at(data@, at as int, n as nat));
    Some(keys)
}

fn malformed(prefix: &str, what: &str) -> (e: SolanaRpcError)
    ensures
        says(e, prefix@ + what@),
{
    let mut m: String = String::from_str(prefix);
    m.append(what);
    SolanaRpcError::Malformed(m)
}

fn bad(what: &str) -> (e: SolanaRpcError)
    ensures
        says(e, what@),
{
    SolanaRpcError::Malformed(String::from_str(what))
}

/// Whether a failed decoding says `text`.
pub open spec fn says(e: SolanaRpcError, text: Seq<char>) -> bool {
    e matches SolanaRpcError::Malformed(m) && m@ == text
}

/// The current on-chain federation.
#[derive(Debug, Clone, PartialEq, Eq)]
pub struct ValidatorSetSnapshot {
    pub epoch: u64,
    pub threshold: u8,
    pub validators: Vec<Pubkey>,
}

/// What a validator set account says.
pub struct ValidatorSetFields {
    pub epoch: nat,
    pub threshold: u8,
    pub validators: Seq<Seq<u8>>,
}

impl View for ValidatorSetSnapshot {
    type V = ValidatorSetFields;

    open spec fn view(&self) -> ValidatorSetFields {
        ValidatorSetFields {
            epoch: self.epoch as nat,
            threshold: self.threshold,
            validators: key_views(self.validators@),
        }
    }
}

/// Reads a validator set account: epoch, threshold, bump, validators.
pub open spec fn validator_set_in(data: Seq<u8>) -> Result<ValidatorSetFields, Seq<char>> {
    let body = data.skip(DISCRIMINATOR_LEN as int);
    if data.len() < DISCRIMINATOR_LEN {
        Err("account shorter than discriminator"@)
    } else if body.len() < 8 {
        Err("missing epoch"@)
    } else if body.len() < 9 {
        Err("missing threshold"@)
    } else if body.len() < 14 {
        Err("missing validators length"@)
    } else if body.len() < 14 + 32 * uint_at(body, 10, 4) {
        Err("truncated validators list"@)
    } else {
        Ok(
            ValidatorSetFields {
                epoch: uint_at(body, 0, 8),
                threshold: body[8],
                validators: keys_at(body, 14, uint_at(body, 10, 4)),
            },
        )
    }
}

/// Decodes a validator set account.
pub fn decode_validator_set(data: &[u8]) -> (result: Result<ValidatorSetSnapshot, SolanaRpcError>)
    ensures
        match (result, validator_set_in(data@)) {
            (Ok(got), Ok(fields)) => got@ == fields,
            (Err(e), Err(text)) => says(e, text),
            _ => false,
        },
{
    if data.len() < DISCRIMINATOR_LEN {
        return Err(bad("account shorter than discriminator"));
    }
    let body: &[u8] = vstd::slice::slice_subrange(data, DISCRIMINATOR_LEN, data.len());
    assert(body@ =~= data@.skip(DISCRIMINATOR_LEN as int));
    if body.len() < 8 {
        return Err(bad("missing epoch"));
    }
    if body.len() < 9 {
        return Err(bad("missing threshold"));
    }
    if body.len() < 14 {
        return Err(bad("missing validators length"));
    }
    let epoch: u64 = read_le(body, 0, 8);
    let count: u64 = read_le(body, 10, 4);
    match read_keys(body, 14, count) {
        Some(validators) => Ok(
            ValidatorSetSnapshot { epoch, threshold: body[8], validators },
        ),
        None => Err(bad("truncated validators list")),
    }
}

/// A mint's displayed metadata, as wallets read it.
#[derive(Debug, Clone, PartialEq, Eq)]
pub struct TokenMetadataSnapshot {
    pub update_authority: Pubkey,
    pub mint: Pubkey,
    pub name: String,
    pub symbol: String,
    pub uri: String,
}

/// What a metadata account says.
pub struct TokenMetadataFields {
    pub update_authority: Seq<u8>,
    pub mint: Seq<u8>,
    pub name: Seq<char>,
    pub symbol: Seq<char>,
    pub uri: Seq<char>,
}

impl View for TokenMetadataSnapshot {
    type V = TokenMetadataFields;

    open spec fn view(&self) -> TokenMetadataFields {
        TokenMetadataFields {
            update_authority: self.update_authority@,
            mint: self.mint@,
            name: self.name@,
            symbol: self.symbol@,
            uri: self.uri@,
        }
    }
}

/// Bytes as text, with replacement characters where they are not UTF-8.
pub uninterp spec fn utf8_lossy(bytes: Seq<u8>) -> Seq<char>;

/// `String::from_utf8_lossy`: a function of the bytes alone, which gives valid
/// UTF-8 as it is.
#[verifier::external_body]
fn from_utf8_lossy(bytes: &[u8]) -> (text: String)
    ensures
        text@ == utf8_lossy(bytes@),
        valid_utf8(bytes@) ==> text@ == decode_utf8(bytes@),
{
    String::from_utf8_lossy(bytes).to_string()
}

/// A text without its trailing NUL characters.
pub open spec fn without_padding(text: Seq<char>) -> Seq<char>
    decreases text.len(),
{
    if text.len() > 0 && text.last() == '\0' {
        without_padding(text.drop_last())
    } else {
        text
    }
}

/// The text in padded bytes.
pub open spec fn displayed(raw: Seq<u8>) -> Seq<char> {
    without_padding(
        if valid_utf8(raw) {
            decode_utf8(raw)
        } else {
            utf8_lossy(raw)
        },
    )
}

/// Whether a length-prefixed string lies at `at`.
pub open spec fn has_string(data: Seq<u8>, at: int) -> bool {
    at + 4 <= data.len() && at + 4 + uint_at(data, at, 4) <= data.len()
}

/// Where the string at `at` ends.
pub open spec fn string_end(data: Seq<u8>, at: int) -> int {
    at + 4 + uint_at(data, at, 4)
}

/// The text of the string at `at`.
pub open spec fn string_at(data: Seq<u8>, at: int) -> Seq<char> {
    displayed(data.subrange(at + 4, string_end(data, at)))
}

/// Reads the leading fields of a metadata account: a key byte, the update
/// authority, the mint, and three strings padded with NULs.
pub open spec fn token_metadata_in(data: Seq<u8>) -> Result<TokenMetadataFields, Seq<char>> {
    let symbol = string_end(data, 65);
    let uri = string_end(data, symbol);
    if data.len() < 33 {
        Err("token metadata: missing "@ + "update authority"@)
    } else if data.len() < 65 {
        Err("token metadata: missing "@ + "mint"@)
    } else if !has_string(data, 65) {
        Err("token metadata: missing "@ + "name"@)
    } else if !has_string(data, symbol) {
        Err("token metadata: missing "@ + "symbol"@)
    } else if !has_string(data, uri) {
        Err("token metadata: missing "@ + "uri"@)
    } else {
        Ok(
            TokenMetadataFields {
                update_authority: key_at(data, 1),
                mint: key_at(data, 33),
                name: string_at(data, 65),
                symbol: string_at(data, symbol),
                uri: string_at(data, uri),
            },
        )
    }
}

/// The text of a string without its trailing NUL characters.
pub fn strip_padding(text: &str) -> (inner: String)
    ensures
        inner@ == without_padding(text@),
{
    let chars: Vec<char> = chars_of(text);
    let mut to: usize = chars.len();
    assert(chars@.take(to as int) =~= text@);
    while to > 0 && chars[to - 1] == '\0'
        invariant
            to <= chars@.len(),
            without_padding(text@) == without_padding(chars@.take(to as int)),
        decreases to,
    {
        assert(chars@.take(to as int).drop_last() =~= chars@.take(to - 1));
        to = to - 1;
    }
    let inner: &[char] = vstd::slice::slice_subrange(chars.as_slice(), 0, to);
    assert(inner@ =~= chars@.take(to as int));
    string_of(inner)
}

/// Reads the string at `at`, and where it ends.
fn read_string(data: &[u8], at: usize) -> (found: Option<(String, usize)>)
    requires
        at <= data@.len(),
    ensures
        match found {
            Some(f) => has_string(data@, at as int) && f.0@ == string_at(data@, at as int) && f.1
                == string_end(data@, at as int) && f.1 <= data@.len(),
            None => !has_string(data@, at as int),
        },
{
    if data.len() - at < 4 {
        return None;
    }
    let len: u64 = read_le(data, at, 4);
    if ((data.len() - at - 4) as u64) < len {
        return None;
    }
    let from: usize = at + 4;
    let to: usize = from + len as usize;
    let raw: &[u8] = vstd::slice::slice_subrange(data, from, to);
    Some((strip_padding(from_utf8_lossy(raw).as_str()), to))
}

/// Decodes the leading fields of a metadata account.
///
/// The program that writes it pads each string with NULs, so a padded name is
/// the same name: comparing untrimmed would report a correct token as
/// misconfigured.
pub fn decode_token_metadata(data: &[u8]) -> (result: Result<
    TokenMetadataSnapshot,
    SolanaRpcError,
>)
    ensures
        match (result, token_metadata_in(data@)) {
            (Ok(got), Ok(fields)) => got@ == fields,
            (Err(e), Err(text)) => says(e, text),
            _ => false,
        },
{
    if data.len() < 33 {
        return Err(malformed("token metadata: missing ", "update authority"));
    }
    if data.len() < 65 {
        return Err(malformed("token metadata: missing ", "mint"));
    }
    let update_authority: Pubkey = read_key(data, 1);
    let mint: Pubkey = read_key(data, 33);
    let (name, after_name): (String, usize) = match read_string(data, 65) {
        Some(found) => found,
        None => {
            return Err(malformed("token metadata: missing ", "name"));
        },
    };
    let (symbol, after_symbol): (String, usize) = match read_string(data, after_name) {
        Some(found) => found,
        None => {
            return Err(malformed("token metadata: missing ", "symbol"));
        },
    };
    let (uri, _): (String, usize) = match read_string(data, after_symbol) {
        Some(found) => found,
        None => {
            return Err(malformed("token metadata: missing ", "uri"));
        },
    };
    Ok(TokenMetadataSnapshot { update_authority, mint, name, symbol, uri })
}

/// The bridge's configuration. Every field is a launch-time decision with no
/// default, so confirming what landed on chain is not optional.
#[derive(Debug, Clone, PartialEq, Eq)]
pub struct BridgeConfigSnapshot {
    pub protocol_version: u8,
    pub admin: Pubkey,
    pub pending_admin: Option<Pubkey>,
    pub paused: bool,
    pub withdrawal_count: u64,
    pub min_deposit: u64,
    pub min_withdrawal: u64,
    pub wrapped_mint: Pubkey,
    pub governance_timelock_seconds: i64,
    pub max_wrapped_supply: u64,
}

/// What a configuration account says.
pub struct BridgeConfigFields {
    pub protocol_version: u8,
    pub admin: Seq<u8>,
    pub pending_admin: Option<Seq<u8>>,
    pub paused: bool,
    pub withdrawal_count: nat,
    pub min_deposit: nat,
    pub min_withdrawal: nat,
    pub wrapped_mint: Seq<u8>,
    pub governance_timelock_seconds: int,
    pub max_wrapped_supply: nat,
}

impl View for BridgeConfigSnapshot {
    type V = BridgeConfigFields;

    open spec fn view(&self) -> BridgeConfigFields {
        BridgeConfigFields {
            protocol_version: self.protocol_version,
            admin: self.admin@,
            pending_admin: match self.pending_admin {
                Some(key) => Some(key@),
                None => None,
            },
            paused: self.paused,
            withdrawal_count: self.withdrawal_count as nat,
            min_deposit: self.min_deposit as nat,
            min_withdrawal: self.min_withdrawal as nat,
            wrapped_mint: self.wrapped_mint@,
            governance_timelock_seconds: self.governance_timelock_seconds as int,
            max_wrapped_supply: self.max_wrapped_supply as nat,
        }
    }
}

impl BridgeConfigSnapshot {
    /// Whether the wrapped mint has been created. The program stores the
    /// all-zero key as "not yet".
    pub fn mint_is_configured(&self) -> (configured: bool)
        ensures
            configured == (self.wrapped_mint@ != Seq::new(32, |i: int| 0u8)),
    {
        !self.wrapped_mint.same_as(&Pubkey::default())
    }
}

/// Reads a configuration account. An optional key is a tag byte, and the key
/// only where the tag is 1, so every later field is 32 bytes further on while
/// a handover is pending.
pub open spec fn bridge_config_in(data: Seq<u8>) -> Result<BridgeConfigFields, Seq<char>> {
    let body = data.skip(DISCRIMINATOR_LEN as int);
    let n = body.len();
    if data.len() < DISCRIMINATOR_LEN {
        Err("account shorter than discriminator"@)
    } else if n < 1 {
        Err("bridge config: missing "@ + "protocol version"@)
    } else if n < 33 {
        Err("bridge config: missing "@ + "admin"@)
    } else if n < 34 {
        Err("bridge config: missing "@ + "pending admin tag"@)
    } else if body[33] > 1 {
        Err(
            "bridge config: pending_admin has an invalid Borsh option tag "@ + decimal(
                body[33] as nat,
            ),
        )
    } else if body[33] == 1 && n < 66 {
        Err("bridge config: missing "@ + "pending admin"@)
    } else {
        let at: int = if body[33] == 1 {
            66
        } else {
            34
        };
        if n < at + 1 {
            Err("bridge config: missing "@ + "paused"@)
        } else if n < at + 9 {
            Err("bridge config: missing "@ + "withdrawal count"@)
        } else if n < at + 17 {
            Err("bridge config: missing "@ + "min deposit"@)
        } else if n < at + 25 {
            Err("bridge config: missing "@ + "min withdrawal"@)
        } else if n < at + 58 {
            Err("bridge config: missing "@ + "wrapped mint"@)
        } else if n < at + 67 {
            Err("bridge config: missing "@ + "governance timelock"@)
        } else if n < at + 75 {
            Err("bridge config: missing "@ + "max wrapped supply"@)
        } else {
            Ok(
                BridgeConfigFields {
                    protocol_version: body[0],
                    admin: key_at(body, 1),
                    pending_admin: if body[33] == 1 {
                        Some(key_at(body, 34))
                    } else {
                        None
                    },
                    paused: body[at] != 0,
                    withdrawal_count: uint_at(body, at + 1, 8),
                    min_deposit: uint_at(body, at + 9, 8),
                    min_withdrawal: uint_at(body, at + 17, 8),
                    wrapped_mint: key_at(body, at + 26),
                    governance_timelock_seconds: int_at(body, at + 59),
                    max_wrapped_supply: uint_at(body, at + 67, 8),
                },
            )
        }
    }
}

/// Decodes a configuration account.
pub fn decode_bridge_config(data: &[u8]) -> (result: Result<BridgeConfigSnapshot, SolanaRpcError>)
    ensures
        match (result, bridge_config_in(data@)) {
            (Ok(got), Ok(fields)) => got@ == fields,
            (Err(e), Err(text)) => says(e, text),
            _ => false,
        },
{
    if data.len() < DISCRIMINATOR_LEN {
        return Err(bad("account shorter than discriminator"));
    }
    let body: &[u8] = vstd::slice::slice_subrange(data, DISCRIMINATOR_LEN, data.len());
    assert(body@ =~= data@.skip(DISCRIMINATOR_LEN as int));
    let n: usize = body.len();
    if n < 1 {
        return Err(malformed("bridge config: missing ", "protocol version"));
    }
    if n < 33 {
        return Err(malformed("bridge config: missing ", "admin"));
    }
    if n < 34 {
        return Err(malformed("bridge config: missing ", "pending admin tag"));
    }
    let tag: u8 = body[33];
    if tag > 1 {
        let mut m: String = String::from_str(
            "bridge config: pending_admin has an invalid Borsh option tag ",
        );
        push_decimal(&mut m, tag as u64);
        return Err(SolanaRpcError::Malformed(m));
    }
    if tag == 1 && n < 66 {
        return Err(malformed("bridge config: missing ", "pending admin"));
    }
    let pending_admin: Option<Pubkey> = if tag == 1 {
        Some(read_key(body, 34))
    } else {
        None
    };
    let at: usize = if tag == 1 {
        66
    } else {
        34
    };
    if n < at + 1 {
        return Err(malformed("bridge config: missing ", "paused"));
    }
    if n < at + 9 {
        return Err(malformed("bridge config: missing ", "withdrawal count"));
    }
    if n < at + 17 {
        return Err(malformed("bridge config: missing ", "min deposit"));
    }
    if n < at + 25 {
        return Err(malformed("bridge config: missing ", "min withdrawal"));
    }
    // One bump byte stands before the mint, another after it.
    if n < at + 58 {
        return Err(malformed("bridge config: missing ", "wrapped mint"));
    }
    if n < at + 67 {
        return Err(malformed("bridge config: missing ", "governance timelock"));
    }
    if n < at + 75 {
        return Err(malformed("bridge config: missing ", "max wrapped supply"));
    }
    Ok(
        BridgeConfigSnapshot {
            protocol_version: body[0],
            admin: read_key(body, 1),
            pending_admin,
            paused: body[at] != 0,
            withdrawal_count: read_le(body, at + 1, 8),
            min_deposit: read_le(body, at + 9, 8),
            min_withdrawal: read_le(body, at + 17, 8),
            wrapped_mint: read_key(body, at + 26),
            governance_timelock_seconds: from_bits64(read_le(body, at + 59, 8)),
            max_wrapped_supply: read_le(body, at + 67, 8),
        },
    )
}

/// A queued governance action.
///
/// A cancellation derives its parameters from here rather than from what an
/// operator remembers: it commits to the exact action and eta.
#[derive(Debug, Clone, PartialEq, Eq)]
pub struct PendingActionSnapshot {
    pub action: u8,
    pub proposed_under_epoch: u64,
    pub eta: i64,
    pub threshold: u8,
    pub validators: Vec<Pubkey>,
    pub proposed_max_wrapped_supply: u64,
}

/// What a pending action account says.
pub struct PendingActionFields {
    pub action: u8,
    pub proposed_under_epoch: nat,
    pub eta: int,
    pub threshold: u8,
    pub validators: Seq<Seq<u8>>,
    pub proposed_max_wrapped_supply: nat,
}

impl View for PendingActionSnapshot {
    type V = PendingActionFields;

    open spec fn view(&self) -> PendingActionFields {
        PendingActionFields {
            action: self.action,
            proposed_under_epoch: self.proposed_under_epoch as nat,
            eta: self.eta as int,
            threshold: self.threshold,
            validators: key_views(self.validators@),
            proposed_max_wrapped_supply: self.proposed_max_wrapped_supply as nat,
        }
    }
}

/// Reads a pending action account: action, epoch, eta, threshold, validators,
/// bump, proposed cap.
pub open spec fn pending_action_in(data: Seq<u8>) -> Result<PendingActionFields, Seq<char>> {
    let body = data.skip(DISCRIMINATOR_LEN as int);
    let n = body.len();
    let count = uint_at(body, 18, 4);
    let after = 22 + 32 * count;
    if data.len() < DISCRIMINATOR_LEN {
        Err("account shorter than discriminator"@)
    } else if n < 1 {
        Err("pending action: missing "@ + "action"@)
    } else if n < 9 {
        Err("pending action: missing "@ + "epoch"@)
    } else if n < 17 {
        Err("pending action: missing "@ + "eta"@)
    } else if n < 18 {
        Err("pending action: missing "@ + "threshold"@)
    } else if n < 22 {
        Err("pending action: missing "@ + "validators length"@)
    } else if n < after {
        Err("pending action: missing "@ + "a validator"@)
    } else if n < after + 9 {
        Err("pending action: missing "@ + "proposed max wrapped supply"@)
    } else {
        Ok(
            PendingActionFields {
                action: body[0],
                proposed_under_epoch: uint_at(body, 1, 8),
                eta: int_at(body, 9),
                threshold: body[17],
                validators: keys_at(body, 22, count),
                proposed_max_wrapped_supply: uint_at(body, after as int + 1, 8),
            },
        )
    }
}

/// Decodes a pending action account.
pub fn decode_pending_action(data: &[u8]) -> (result: Result<
    PendingActionSnapshot,
    SolanaRpcError,
>)
    ensures
        match (result, pending_action_in(data@)) {
            (Ok(got), Ok(fields)) => got@ == fields,
            (Err(e), Err(text)) => says(e, text),
            _ => false,
        },
{
    if data.len() < DISCRIMINATOR_LEN {
        return Err(bad("account shorter than discriminator"));
    }
    let body: &[u8] = vstd::slice::slice_subrange(data, DISCRIMINATOR_LEN, data.len());
    assert(body@ =~= data@.skip(DISCRIMINATOR_LEN as int));
    let n: usize = body.len();
    if n < 1 {
        return Err(malformed("pending action: missing ", "action"));
    }
    if n < 9 {
        return Err(malformed("pending action: missing ", "epoch"));
    }
    if n < 17 {
        return Err(malformed("pending action: missing ", "eta"));
    }
    if n < 18 {
        return Err(malformed("pending action: missing ", "threshold"));
    }
    if n < 22 {
        return Err(malformed("pending action: missing ", "validators length"));
    }
    let count: u64 = read_le(body, 18, 4);
    let validators: Vec<Pubkey> = match read_keys(body, 22, count) {
        Some(validators) => validators,
        None => {
            return Err(malformed("pending action: missing ", "a validator"));
        },
    };
    assert(validators@.len() == key_views(validators@).len() == count);
    let after: usize = 22 + 32 * validators.len();
    if n - after < 9 {
        return Err(malformed("pending action: missing ", "proposed max wrapped supply"));
    }
    Ok(
        PendingActionSnapshot {
            action: body[0],
            proposed_under_epoch: read_le(body, 1, 8),
            eta: from_bits64(read_le(body, 9, 8)),
            threshold: body[17],
            validators,
            proposed_max_wrapped_supply: read_le(body, after + 1, 8),
        },
    )
}

/// The fixed-width encoding of a number that fits it reads back as the number.
proof fn lemma_uint_at(data: Seq<u8>, at: int, width: nat, value: nat)
    requires
        0 <= at,
        at + width <= data.len(),
        data.subrange(at, at + width) == le_bytes(value, width),
        value < crate::bytes::pow256(width),
    ensures
        uint_at(data, at, width as int) == value,
{
    lemma_le_value_of_le_bytes(value, width);
}

proof fn lemma_key_in_keys(keys: Seq<Pubkey>, i: int)
    requires
        0 <= i < keys.len(),
    ensures
        key_bytes(keys).len() == 32 * keys.len(),
        key_bytes(keys).subrange(32 * i, 32 * i + 32) == keys[i]@,
    decreases keys.len(),
{
    let front = keys.drop_last();
    lemma_keys_len(keys);
    lemma_keys_len(front);
    if i < keys.len() - 1 {
        lemma_key_in_keys(front, i);
        assert(key_bytes(keys).subrange(32 * i, 32 * i + 32) =~= key_bytes(front).subrange(
            32 * i,
            32 * i + 32,
        ));
        assert(front[i] == keys[i]);
    } else {
        assert(key_bytes(keys).subrange(32 * i, 32 * i + 32) =~= keys.last()@);
    }
}

proof fn lemma_keys_len(keys: Seq<Pubkey>)
    ensures
        key_bytes(keys).len() == 32 * keys.len(),
    decreases keys.len(),
{
    if keys.len() > 0 {
        lemma_keys_len(keys.drop_last());
    }
}

/// A list of keys reads back as the same keys in the same order.
proof fn lemma_keys_at(data: Seq<u8>, at: int, keys: Seq<Pubkey>)
    requires
        0 <= at,
        at + 4 + 32 * keys.len() <= data.len(),
        data.subrange(at, at + 4 + 32 * keys.len()) == borsh_keys(keys),
        keys.len() < 0x1_0000_0000,
    ensures
        uint_at(data, at, 4) == keys.len(),
        keys_at(data, at + 4, keys.len()) == key_views(keys),
{
    lemma_pow256();
    lemma_le_bytes_len(keys.len(), 4);
    lemma_keys_len(keys);
    let part = borsh_keys(keys);
    assert(data.subrange(at, at + 4) =~= part.subrange(0, 4));
    assert(part.subrange(0, 4) =~= le_bytes(keys.len(), 4));
    lemma_uint_at(data, at, 4, keys.len());
    assert forall|i: int| 0 <= i < keys.len() implies key_at(data, at + 4 + 32 * i)
        == keys[i]@ by {
        lemma_key_in_keys(keys, i);
        assert(part.subrange(4 + 32 * i, 36 + 32 * i) =~= key_bytes(keys).subrange(
            32 * i,
            32 * i + 32,
        ));
        assert(key_at(data, at + 4 + 32 * i) =~= part.subrange(4 + 32 * i, 36 + 32 * i));
    }
    assert(keys_at(data, at + 4, keys.len()) =~= key_views(keys));
}

/// How the program lays out a validator set account.
pub open spec fn validator_set_account(
    discriminator: Seq<u8>,
    epoch: u64,
    threshold: u8,
    bump: u8,
    validators: Seq<Pubkey>,
    reserved: Seq<u8>,
) -> Seq<u8> {
    discriminator + (le_bytes(epoch as nat, 8) + seq![threshold, bump] + borsh_keys(validators)
        + reserved)
}

/// A validator set account reads back as what was laid out in it.
pub proof fn validator_set_round_trips(
    discriminator: Seq<u8>,
    epoch: u64,
    threshold: u8,
    bump: u8,
    validators: Seq<Pubkey>,
    reserved: Seq<u8>,
)
    requires
        discriminator.len() == DISCRIMINATOR_LEN,
        validators.len() < 0x1_0000_0000,
    ensures
        validator_set_in(
            validator_set_account(discriminator, epoch, threshold, bump, validators, reserved),
        ) == Ok::<_, Seq<char>>(
            ValidatorSetFields {
                epoch: epoch as nat,
                threshold,
                validators: key_views(validators),
            },
        ),
{
    let data = validator_set_account(discriminator, epoch, threshold, bump, validators, reserved);
    let body = data.skip(8);
    let keys = borsh_keys(validators);
    lemma_pow256();
    lemma_le_bytes_len(epoch as nat, 8);
    lemma_le_bytes_len(validators.len(), 4);
    lemma_keys_len(validators);
    assert(body =~= le_bytes(epoch as nat, 8) + seq![threshold, bump] + keys + reserved);
    assert(body.subrange(0, 8) =~= le_bytes(epoch as nat, 8));
    lemma_uint_at(body, 0, 8, epoch as nat);
    assert(body.subrange(10, 10 + 4 + 32 * validators.len() as int) =~= keys);
    lemma_keys_at(body, 10, validators);
}

/// How the program lays out a pending action account.
pub open spec fn pending_action_account(
    discriminator: Seq<u8>,
    action: u8,
    epoch: u64,
    eta: i64,
    threshold: u8,
    validators: Seq<Pubkey>,
    bump: u8,
    proposed_max: u64,
    reserved: Seq<u8>,
) -> Seq<u8> {
    discriminator + (seq![action] + le_bytes(epoch as nat, 8) + le_bytes(twos_complement64(eta), 8)
        + seq![threshold] + borsh_keys(validators) + seq![bump] + le_bytes(proposed_max as nat, 8)
        + reserved)
}

/// A pending action account reads back as what was laid out in it, whatever
/// the sign of the eta and however many validators stand before the cap.
pub proof fn pending_action_round_trips(
    discriminator: Seq<u8>,
    action: u8,
    epoch: u64,
    eta: i64,
    threshold: u8,
    validators: Seq<Pubkey>,
    bump: u8,
    proposed_max: u64,
    reserved: Seq<u8>,
)
    requires
        discriminator.len() == DISCRIMINATOR_LEN,
        validators.len() < 0x1_0000_0000,
    ensures
        pending_action_in(
            pending_action_account(
                discriminator,
                action,
                epoch,
                eta,
                threshold,
                validators,
                bump,
                proposed_max,
                reserved,
            ),
        ) == Ok::<_, Seq<char>>(
            PendingActionFields {
                action,
                proposed_under_epoch: epoch as nat,
                eta: eta as int,
                threshold,
                validators: key_views(validators),
                proposed_max_wrapped_supply: proposed_max as nat,
            },
        ),
{
    let data = pending_action_account(
        discriminator,
        action,
        epoch,
        eta,
        threshold,
        validators,
        bump,
        proposed_max,
        reserved,
    );
    let body = data.skip(8);
    let keys = borsh_keys(validators);
    let after: int = 22 + 32 * validators.len() as int;
    lemma_pow256();
    lemma_le_bytes_len(epoch as nat, 8);
    lemma_le_bytes_len(twos_complement64(eta), 8);
    lemma_le_bytes_len(proposed_max as nat, 8);
    lemma_le_bytes_len(validators.len(), 4);
    lemma_keys_len(validators);
    assert(body =~= seq![action] + le_bytes(epoch as nat, 8) + le_bytes(twos_complement64(eta), 8)
        + seq![threshold] + keys + seq![bump] + le_bytes(proposed_max as nat, 8) + reserved);
    assert(body.subrange(1, 9) =~= le_bytes(epoch as nat, 8));
    lemma_uint_at(body, 1, 8, epoch as nat);
    assert(body.subrange(9, 17) =~= le_bytes(twos_complement64(eta), 8));
    lemma_uint_at(body, 9, 8, twos_complement64(eta));
    assert(body.subrange(18, 18 + 4 + 32 * validators.len() as int) =~= keys);
    lemma_keys_at(body, 18, validators);
    assert(body.subrange(after + 1, after + 9) =~= le_bytes(proposed_max as nat, 8));
    lemma_uint_at(body, after + 1, 8, proposed_max as nat);
}

/// An optional key: a tag, and the key where there is one.
pub open spec fn borsh_option(key: Option<Pubkey>) -> Seq<u8> {
    match key {
        None => seq![0u8],
        Some(k) => seq![1u8] + k@,
    }
}

/// How the program lays out a configuration account.
pub open spec fn bridge_config_account(
    discriminator: Seq<u8>,
    config: BridgeConfigSnapshot,
    bump: u8,
    mint_authority_bump: u8,
    reserved: Seq<u8>,
) -> Seq<u8> {
    discriminator + (seq![config.protocol_version] + config.admin@ + borsh_option(
        config.pending_admin,
    ) + (seq![
        if config.paused {
            1u8
        } else {
            0u8
        },
    ] + le_bytes(config.withdrawal_count as nat, 8) + le_bytes(config.min_deposit as nat, 8)
        + le_bytes(config.min_withdrawal as nat, 8) + seq![bump] + config.wrapped_mint@
        + seq![mint_authority_bump] + le_bytes(
        twos_complement64(config.governance_timelock_seconds),
        8,
    ) + le_bytes(config.max_wrapped_supply as nat, 8) + reserved))
}

/// A configuration account reads back as what was laid out in it, with or
/// without a pending handover.
pub proof fn bridge_config_round_trips(
    discriminator: Seq<u8>,
    config: BridgeConfigSnapshot,
    bump: u8,
    mint_authority_bump: u8,
    reserved: Seq<u8>,
)
    requires
        discriminator.len() == DISCRIMINATOR_LEN,
    ensures
        bridge_config_in(
            bridge_config_account(discriminator, config, bump, mint_authority_bump, reserved),
        ) == Ok::<_, Seq<char>>(config@),
{
    let data = bridge_config_account(discriminator, config, bump, mint_authority_bump, reserved);
    let body = data.skip(8);
    let option = borsh_option(config.pending_admin);
    let at: int = 33 + option.len() as int;
    let paused = if config.paused {
        1u8
    } else {
        0u8
    };
    let count = le_bytes(config.withdrawal_count as nat, 8);
    let deposit = le_bytes(config.min_deposit as nat, 8);
    let withdrawal = le_bytes(config.min_withdrawal as nat, 8);
    let timelock = le_bytes(twos_complement64(config.governance_timelock_seconds), 8);
    let cap = le_bytes(config.max_wrapped_supply as nat, 8);
    lemma_pow256();
    lemma_le_bytes_len(config.withdrawal_count as nat, 8);
    lemma_le_bytes_len(config.min_deposit as nat, 8);
    lemma_le_bytes_len(config.min_withdrawal as nat, 8);
    lemma_le_bytes_len(twos_complement64(config.governance_timelock_seconds), 8);
    lemma_le_bytes_len(config.max_wrapped_supply as nat, 8);
    let head = seq![config.protocol_version] + config.admin@ + option;
    let tail = seq![paused] + count + deposit + withdrawal + seq![bump] + config.wrapped_mint@
        + seq![mint_authority_bump] + timelock + cap + reserved;
    assert(body =~= head + tail);
    assert(head.len() == at);
    assert(body[33] == option[0]);
    assert(key_at(body, 1) =~= config.admin@);
    if let Some(key) = config.pending_admin {
        assert(key_at(body, 34) =~= key@);
    }
    assert(body[at] == paused);
    assert(body.subrange(at + 1, at + 9) =~= count);
    lemma_uint_at(body, at + 1, 8, config.withdrawal_count as nat);
    assert(body.subrange(at + 9, at + 17) =~= deposit);
    lemma_uint_at(body, at + 9, 8, config.min_deposit as nat);
    assert(body.subrange(at + 17, at + 25) =~= withdrawal);
    lemma_uint_at(body, at + 17, 8, config.min_withdrawal as nat);
    assert(key_at(body, at + 26) =~= config.wrapped_mint@);
    assert(body.subrange(at + 59, at + 67) =~= timelock);
    lemma_uint_at(body, at + 59, 8, twos_complement64(config.governance_timelock_seconds));
    assert(body.subrange(at + 67, at + 75) =~= cap);
    lemma_uint_at(body, at + 67, 8, config.max_wrapped_supply as nat);
}

/// NUL characters.
pub open spec fn nuls(n: nat) -> Seq<char> {
    Seq::new(n, |i: int| '\0')
}

/// A string as the metadata program stores it: a length, the text, NULs.
pub open spec fn padded_string(text: Seq<char>, padding: nat) -> Seq<u8> {
    let raw = encode_utf8(text + nuls(padding));
    le_bytes(raw.len(), 4) + raw
}

/// How the metadata program lays out the leading fields of its account.
pub open spec fn metadata_account(
    kind: u8,
    update_authority: Pubkey,
    mint: Pubkey,
    name: Seq<u8>,
    symbol: Seq<u8>,
    uri: Seq<u8>,
    rest: Seq<u8>,
) -> Seq<u8> {
    seq![kind] + update_authority@ + mint@ + name + symbol + uri + rest
}

/// Whether a text can be told apart from its padding, and its stored form has
/// a length that fits its field.
pub open spec fn storable(text: Seq<char>, padding: nat) -> bool {
    &&& text.len() > 0 ==> text.last() != '\0'
    &&& encode_utf8(text + nuls(padding)).len() < 0x1_0000_0000
}

proof fn lemma_without_padding(text: Seq<char>, padding: nat)
    requires
        text.len() > 0 ==> text.last() != '\0',
    ensures
        without_padding(text + nuls(padding)) == text,
    decreases padding,
{
    let all = text + nuls(padding);
    if padding > 0 {
        assert(all.drop_last() =~= text + nuls((padding - 1) as nat));
        lemma_without_padding(text, (padding - 1) as nat);
    } else {
        assert(all =~= text);
    }
}

/// A padded string reads back as its text.
proof fn lemma_padded_string(data: Seq<u8>, at: int, text: Seq<char>, padding: nat)
    requires
        0 <= at,
        storable(text, padding),
        at + padded_string(text, padding).len() <= data.len(),
        data.subrange(at, at + padded_string(text, padding).len()) == padded_string(text, padding),
    ensures
        has_string(data, at),
        string_end(data, at) == at + padded_string(text, padding).len(),
        string_at(data, at) == text,
{
    let shown = text + nuls(padding);
    let raw = encode_utf8(shown);
    let stored = padded_string(text, padding);
    lemma_pow256();
    lemma_le_bytes_len(raw.len(), 4);
    assert(data.subrange(at, at + 4) =~= stored.subrange(0, 4));
    assert(stored.subrange(0, 4) =~= le_bytes(raw.len(), 4));
    lemma_uint_at(data, at, 4, raw.len());
    assert(data.subrange(at + 4, at + 4 + raw.len()) =~= stored.subrange(4, 4 + raw.len() as int));
    assert(stored.subrange(4, 4 + raw.len() as int) =~= raw);
    encode_utf8_valid_utf8(shown);
    encode_utf8_decode_utf8(shown);
    lemma_without_padding(text, padding);
}

/// A metadata account reads back as its keys and its texts, whatever padding
/// the texts were stored with.
pub proof fn metadata_round_trips(
    kind: u8,
    update_authority: Pubkey,
    mint: Pubkey,
    name: Seq<char>,
    name_padding: nat,
    symbol: Seq<char>,
    symbol_padding: nat,
    uri: Seq<char>,
    uri_padding: nat,
    rest: Seq<u8>,
)
    requires
        storable(name, name_padding),
        storable(symbol, symbol_padding),
        storable(uri, uri_padding),
    ensures
        token_metadata_in(
            metadata_account(
                kind,
                update_authority,
                mint,
                padded_string(name, name_padding),
                padded_string(symbol, symbol_padding),
                padded_string(uri, uri_padding),
                rest,
            ),
        ) == Ok::<_, Seq<char>>(
            TokenMetadataFields {
                update_authority: update_authority@,
                mint: mint@,
                name,
                symbol,
                uri,
            },
        ),
{
    let a = padded_string(name, name_padding);
    let b = padded_string(symbol, symbol_padding);
    let c = padded_string(uri, uri_padding);
    let data = metadata_account(kind, update_authority, mint, a, b, c, rest);
    let at_b: int = 65 + a.len() as int;
    let at_c: int = at_b + b.len() as int;
    assert(key_at(data, 1) =~= update_authority@);
    assert(key_at(data, 33) =~= mint@);
    assert(data.subrange(65, 65 + a.len() as int) =~= a);
    assert(data.subrange(at_b, at_b + b.len()) =~= b);
    assert(data.subrange(at_c, at_c + c.len()) =~= c);
    lemma_padded_string(data, 65, name, name_padding);
    lemma_padded_string(data, at_b, symbol, symbol_padding);
    lemma_padded_string(data, at_c, uri, uri_padding);
}

/// The wait before a retry is 200 milliseconds at first and doubles with every
/// attempt.
pub proof fn the_wait_doubles(attempt: nat)
    ensures
        200 * pow2(0) == 200,
        200 * pow2(attempt + 1) == 2 * (200 * pow2(attempt)),
{
}

/// A validator set account is read exactly where it holds as many validators as
/// it says, whatever stands behind them, and every field is read from its own
/// place.
pub proof fn a_validator_set_is_read_from_its_places(data: Seq<u8>, i: int)
    ensures
        ({
            let count = le_value(data.subrange(18, 22));
            &&& validator_set_in(data) is Ok <==> data.len() >= 22 && data.len() >= 22 + 32 * count
            &&& (validator_set_in(data) matches Ok(fields) ==> {
                &&& fields.epoch == le_value(data.subrange(8, 16))
                &&& fields.threshold == data[16]
                &&& fields.validators.len() == count
                &&& 0 <= i < count ==> fields.validators[i] == data.subrange(
                    22 + 32 * i,
                    54 + 32 * i,
                )
            })
        }),
{
    if data.len() >= 22 {
        let body = data.skip(8);
        assert(body.subrange(10, 14) =~= data.subrange(18, 22));
        assert(body.subrange(0, 8) =~= data.subrange(8, 16));
        if 0 <= i < uint_at(body, 10, 4) && data.len() >= 22 + 32 * uint_at(body, 10, 4) {
            assert(key_at(body, 14 + 32 * i) =~= data.subrange(22 + 32 * i, 54 + 32 * i));
        }
    }
}

/// A pending action account is read exactly where it holds as many validators as
/// it says and a cap behind them, and every field is read from its own place.
pub proof fn a_pending_action_is_read_from_its_places(data: Seq<u8>, i: int)
    ensures
        ({
            let count = le_value(data.subrange(26, 30));
            let after = 30 + 32 * count as int;
            &&& pending_action_in(data) is Ok <==> data.len() >= 30 && data.len() >= after + 9
            &&& (pending_action_in(data) matches Ok(fields) ==> {
                &&& fields.action == data[8]
                &&& fields.proposed_under_epoch == le_value(data.subrange(9, 17))
                &&& fields.eta == from_twos_complement64(le_value(data.subrange(17, 25)))
                &&& fields.threshold == data[25]
                &&& fields.validators.len() == count
                &&& 0 <= i < count ==> fields.validators[i] == data.subrange(
                    30 + 32 * i,
                    62 + 32 * i,
                )
                &&& fields.proposed_max_wrapped_supply == le_value(
                    data.subrange(after + 1, after + 9),
                )
            })
        }),
{
    if data.len() >= 30 {
        let body = data.skip(8);
        let count = uint_at(body, 18, 4);
        let after = 30 + 32 * count as int;
        assert(body.subrange(18, 22) =~= data.subrange(26, 30));
        assert(body.subrange(1, 9) =~= data.subrange(9, 17));
        assert(body.subrange(9, 17) =~= data.subrange(17, 25));
        if data.len() >= after + 9 {
            assert(body.subrange(after - 7, after + 1) =~= data.subrange(after + 1, after + 9));
            if 0 <= i < count {
                assert(key_at(body, 22 + 32 * i) =~= data.subrange(30 + 32 * i, 62 + 32 * i));
            }
        }
    }
}

/// A configuration account is read exactly where its optional key is there or
/// not, in so many words, and nothing is cut off behind it. Every field behind
/// the optional key is read from its own place, 32 bytes further on while a
/// handover is pending, and the bridge is paused on any byte but zero.
pub proof fn a_bridge_config_is_read_from_its_places(data: Seq<u8>)
    ensures
        ({
            let at: int = if data[41] == 1 {
                74
            } else {
                42
            };
            &&& bridge_config_in(data) is Ok <==> data.len() >= 42 && data[41] <= 1 && data.len()
                >= at + 75
            &&& (bridge_config_in(data) matches Ok(fields) ==> {
                &&& fields.protocol_version == data[8]
                &&& fields.admin == data.subrange(9, 41)
                &&& fields.pending_admin is Some <==> data[41] == 1
                &&& (fields.pending_admin matches Some(key) ==> key == data.subrange(42, 74))
                &&& fields.paused <==> data[at] != 0
                &&& fields.withdrawal_count == le_value(data.subrange(at + 1, at + 9))
                &&& fields.min_deposit == le_value(data.subrange(at + 9, at + 17))
                &&& fields.min_withdrawal == le_value(data.subrange(at + 17, at + 25))
                &&& fields.wrapped_mint == data.subrange(at + 26, at + 58)
                &&& fields.governance_timelock_seconds == from_twos_complement64(
                    le_value(data.subrange(at + 59, at + 67)),
                )
                &&& fields.max_wrapped_supply == le_value(data.subrange(at + 67, at + 75))
            })
        }),
{
    if data.len() >= 42 {
        let body = data.skip(8);
        let at: int = if data[41] == 1 {
            74
        } else {
            42
        };
        assert(body[33] == data[41]);
        if data.len() >= at + 75 {
            assert(body.subrange(1, 33) =~= data.subrange(9, 41));
            assert(data[41] == 1 ==> body.subrange(34, 66) =~= data.subrange(42, 74));
            assert(body.subrange(at - 7, at + 1) =~= data.subrange(at + 1, at + 9));
            assert(body.subrange(at + 1, at + 9) =~= data.subrange(at + 9, at + 17));
            assert(body.subrange(at + 9, at + 17) =~= data.subrange(at + 17, at + 25));
            assert(body.subrange(at + 18, at + 50) =~= data.subrange(at + 26, at + 58));
            assert(body.subrange(at + 51, at + 59) =~= data.subrange(at + 59, at + 67));
            assert(body.subrange(at + 59, at + 67) =~= data.subrange(at + 67, at + 75));
        }
    }
}

/// A metadata account is read exactly where its two keys and its three strings
/// are there in full, and each is read from its own place.
pub proof fn metadata_is_read_from_its_places(data: Seq<u8>)
    ensures
        ({
            let name = le_value(data.subrange(65, 69)) as int;
            let second = 69 + name;
            let symbol = le_value(data.subrange(second, second + 4)) as int;
            let third = second + 4 + symbol;
            let uri = le_value(data.subrange(third, third + 4)) as int;
            &&& token_metadata_in(data) is Ok <==> data.len() >= 69 && data.len() >= second + 4
                && data.len() >= third + 4 && data.len() >= third + 4 + uri
            &&& (token_metadata_in(data) matches Ok(fields) ==> {
                &&& fields.update_authority == data.subrange(1, 33)
                &&& fields.mint == data.subrange(33, 65)
                &&& fields.name == displayed(data.subrange(69, second))
                &&& fields.symbol == displayed(data.subrange(second + 4, third))
                &&& fields.uri == displayed(data.subrange(third + 4, third + 4 + uri))
            })
        }),
{
}

/// What is displayed of a stored string does not end in padding, and is the
/// stored text but for that.
pub proof fn nothing_but_padding_is_taken_away(text: Seq<char>)
    ensures
        without_padding(text).len() <= text.len(),
        without_padding(text) == text.take(without_padding(text).len() as int),
        without_padding(text).len() > 0 ==> without_padding(text).last() != '\0',
        forall|i: int| without_padding(text).len() <= i < text.len() ==> text[i] == '\0',
    decreases text.len(),
{
    if text.len() > 0 && text.last() == '\0' {
        let front = text.drop_last();
        nothing_but_padding_is_taken_away(front);
        let n = without_padding(front).len() as int;
        assert(front.take(n) =~= text.take(n));
        assert forall|i: int| n <= i < text.len() implies text[i] == '\0' by {
            if i < front.len() {
                assert(text[i] == front[i]);
            }
        }
    } else {
        assert(text.take(text.len() as int) =~= text);
    }
}

/// A call is tried again exactly where it did not reach the node and fewer calls
/// were made than may be, and each wait is twice the one before it.
pub proof fn only_a_call_that_was_not_answered_is_tried_again(
    e: SolanaRpcError,
    attempt: u32,
    max_attempts: u32,
    delay: Option<u64>,
    next: Option<u64>,
)
    requires
        attempt <= 55,
        call_ensures(retry_delay_ms, (&e, attempt, max_attempts), delay),
        call_ensures(retry_delay_ms, (&e, (attempt + 1) as u32, max_attempts), next),
    ensures
        delay is Some <==> e is Transport && attempt + 1 < max_attempts,
        attempt == 0 && delay is Some ==> delay == Some(200u64),
        delay is Some && next is Some ==> next->0 == 2 * delay->0,
{
}

/// A failed call is one that never reached the node or one that it refused, and
/// only the first is worth another try.
pub proof fn a_refusal_is_not_worth_another_try(
    never_reached: bool,
    text: String,
    e: SolanaRpcError,
    retriable: bool,
)
    requires
        call_ensures(classify_client_error, (never_reached, text), e),
        call_ensures(SolanaRpcError::is_retriable, (&e,), retriable),
    ensures
        never_reached ==> e == SolanaRpcError::Transport(text),
        !never_reached ==> e == SolanaRpcError::Method(text),
        retriable <==> never_reached,
{
}

} // verus!
