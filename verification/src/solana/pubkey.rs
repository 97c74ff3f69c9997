//! Public keys, well-known programs, and program-derived addresses.

use crate::withdrawal::address::{
    base58_bytes, base58_round_trips, base58_text, base58_texts_are_unique, is_base58,
};
use vstd::prelude::*;
use vstd::utf8::encode_utf8;

verus! {

/// An ed25519 public key or a program-derived address.
#[derive(Debug, Clone, Copy, PartialEq, Eq, Hash)]
pub struct Pubkey {
    pub bytes: [u8; 32],
}

impl View for Pubkey {
    type V = Seq<u8>;

    open spec fn view(&self) -> Seq<u8> {
        self.bytes@
    }
}

impl Pubkey {
    pub fn new_from_array(bytes: [u8; 32]) -> (key: Self)
        ensures
            key@ == bytes@,
    {
        Pubkey { bytes }
    }

    pub fn to_bytes(&self) -> (bytes: [u8; 32])
        ensures
            bytes@ == self@,
    {
        self.bytes
    }

    /// Whether two keys are the same.
    pub fn same_as(&self, other: &Pubkey) -> (same: bool)
        ensures
            same == (self@ == other@),
    {
        crate::bytes::same_bytes(&self.bytes, &other.bytes)
    }
}

impl Default for Pubkey {
    /// The all-zero key, which no one holds.
    fn default() -> (key: Self)
        ensures
            key@ == Seq::new(32, |i: int| 0u8),
    {
        let key: Pubkey = Pubkey { bytes: [0u8; 32] };
        assert(key@ =~= Seq::new(32, |i: int| 0u8));
        key
    }
}

/// The classic SPL Token program.
pub const TOKEN_PROGRAM_ID: [u8; 32] = [
    6, 221, 246, 225, 215, 101, 161, 147, 217, 203, 225, 70, 206, 235, 121, 172, 28, 180, 133,
    237, 95, 91, 55, 145, 58, 140, 245, 133, 126, 255, 0, 169,
];

/// The Instructions sysvar, through which a program sees its transaction.
pub const INSTRUCTIONS_SYSVAR_ID: [u8; 32] = [
    6, 167, 213, 23, 24, 123, 209, 102, 53, 218, 212, 4, 85, 253, 194, 192, 193, 36, 198, 143,
    33, 86, 117, 165, 219, 186, 203, 95, 8, 0, 0, 0,
];

/// The Rent sysvar.
pub const RENT_SYSVAR_ID: [u8; 32] = [
    6, 167, 213, 23, 25, 44, 92, 81, 33, 140, 201, 76, 61, 74, 241, 127, 88, 218, 238, 8, 155,
    161, 253, 68, 227, 219, 217, 138, 0, 0, 0, 0,
];

/// The system program.
pub const SYSTEM_PROGRAM_ID: [u8; 32] = [
    0, 0, 0, 0, 0, 0, 0, 0, 0, 0, 0, 0, 0, 0, 0, 0, 0, 0, 0, 0, 0, 0, 0, 0, 0, 0, 0, 0, 0, 0,
    0, 0,
];

/// The loader that owns upgradeable programs.
pub const UPGRADEABLE_LOADER_ID: [u8; 32] = [
    2, 168, 246, 145, 78, 136, 161, 176, 226, 16, 21, 62, 247, 99, 174, 43, 0, 194, 185, 61, 22,
    193, 36, 210, 192, 83, 122, 16, 4, 128, 0, 0,
];

/// The associated token account program.
pub const ASSOCIATED_TOKEN_PROGRAM_ID: [u8; 32] = [
    140, 151, 37, 143, 78, 36, 137, 241, 187, 61, 16, 41, 20, 142, 13, 131, 11, 90, 19, 153, 218,
    255, 16, 132, 4, 142, 123, 216, 219, 233, 248, 89,
];

/// The Metaplex Token Metadata program.
pub const TOKEN_METADATA_PROGRAM_ID: [u8; 32] = [
    11, 112, 101, 177, 227, 209, 124, 69, 56, 157, 82, 127, 107, 4, 195, 205, 88, 184, 108, 115,
    26, 160, 253, 181, 73, 182, 209, 188, 3, 248, 41, 70,
];

/// `spl_token::ID`, the crate's own constant.
#[verifier::external_body]
pub(crate) fn token_program_id() -> (id: Pubkey)
    ensures
        id@ == TOKEN_PROGRAM_ID@,
{
    Pubkey { bytes: spl_token::ID.to_bytes() }
}

/// `solana_sdk::sysvar::instructions::ID`, the crate's own constant.
#[verifier::external_body]
pub(crate) fn instructions_sysvar_id() -> (id: Pubkey)
    ensures
        id@ == INSTRUCTIONS_SYSVAR_ID@,
{
    Pubkey { bytes: solana_sdk::sysvar::instructions::ID.to_bytes() }
}

/// `solana_sdk::sysvar::rent::ID`, the crate's own constant.
#[verifier::external_body]
pub(crate) fn rent_sysvar_id() -> (id: Pubkey)
    ensures
        id@ == RENT_SYSVAR_ID@,
{
    Pubkey { bytes: solana_sdk::sysvar::rent::ID.to_bytes() }
}

/// `solana_sdk::system_program::id`, which takes nothing and returns the key
/// that is all zeros.
#[verifier::external_body]
#[allow(deprecated)]
pub(crate) fn system_program_id() -> (id: Pubkey)
    ensures
        id@ == SYSTEM_PROGRAM_ID@,
{
    Pubkey { bytes: solana_sdk::system_program::id().to_bytes() }
}

/// `solana_sdk::bpf_loader_upgradeable::id`, which takes nothing.
#[verifier::external_body]
#[allow(deprecated)]
pub(crate) fn upgradeable_loader_id() -> (id: Pubkey)
    ensures
        id@ == UPGRADEABLE_LOADER_ID@,
{
    Pubkey { bytes: solana_sdk::bpf_loader_upgradeable::id().to_bytes() }
}

/// The text of a key, by way of the `Display` of `solana_sdk::pubkey::Pubkey`:
/// its 32 bytes in base58.
#[verifier::external_body]
pub(crate) fn key_text(key: &Pubkey) -> (text: String)
    ensures
        text@ == base58_text(key@),
{
    solana_sdk::pubkey::Pubkey::new_from_array(key.bytes).to_string()
}

/// The longest text of a key, in bytes.
pub const MAX_KEY_TEXT_LEN: usize = 44;

/// What a text is read as: the 32 bytes that it spells in base58, or why it
/// spells none.
pub open spec fn key_in(text: Seq<char>) -> Result<Seq<u8>, Seq<char>> {
    if is_base58(text) && base58_bytes(text).len() == 32 {
        Ok(base58_bytes(text))
    } else if encode_utf8(text).len() <= MAX_KEY_TEXT_LEN && !is_base58(text) {
        Err("Invalid Base58 string"@)
    } else {
        Err("String is the wrong size"@)
    }
}

/// `FromStr` of `solana_sdk::pubkey::Pubkey`: a text is a key exactly where it
/// spells 32 bytes in base58. A text that is too long for a key is of the wrong
/// size whatever it holds, one with another character is no base58, and all
/// others are of the wrong size.
#[verifier::external_body]
pub(crate) fn parse_key(text: &str) -> (key: Result<Pubkey, String>)
    ensures
        match key {
            Ok(k) => key_in(text@) == Ok::<Seq<u8>, Seq<char>>(k@),
            Err(why) => key_in(text@) == Err::<Seq<u8>, Seq<char>>(why@),
        },
{
    match text.parse::<solana_sdk::pubkey::Pubkey>() {
        Ok(key) => Ok(Pubkey { bytes: key.to_bytes() }),
        Err(e) => Err(e.to_string()),
    }
}

/// The address and bump that a program derives from seeds, where one exists.
pub uninterp spec fn program_address(seeds: Seq<Seq<u8>>, program_id: Seq<u8>) -> Option<
    (Seq<u8>, u8),
>;

/// The seeds as byte strings.
pub open spec fn seed_bytes(seeds: Seq<Vec<u8>>) -> Seq<Seq<u8>> {
    seeds.map_values(|seed: Vec<u8>| seed@)
}

/// `solana_sdk::pubkey::Pubkey::try_find_program_address`: a function of the
/// seeds and the program. It gives nothing where the seeds are too many or too
/// long, or where no bump leads off the curve.
#[verifier::external_body]
pub(crate) fn try_find_program_address(seeds: &Vec<Vec<u8>>, program_id: &Pubkey) -> (found: Option<
    (Pubkey, u8),
>)
    ensures
        match found {
            Some(address) => program_address(seed_bytes(seeds@), program_id@) == Some(
                (address.0@, address.1),
            ),
            None => program_address(seed_bytes(seeds@), program_id@) is None,
        },
{
    let seeds: Vec<&[u8]> = seeds.iter().map(|seed| seed.as_slice()).collect();
    let program = solana_sdk::pubkey::Pubkey::new_from_array(program_id.bytes);
    solana_sdk::pubkey::Pubkey::try_find_program_address(&seeds, &program)
        .map(|(key, bump)| (Pubkey { bytes: key.to_bytes() }, bump))
}

/// The account that holds a wallet's coins of a mint.
pub open spec fn token_account_at(wallet: Seq<u8>, mint: Seq<u8>) -> Option<(Seq<u8>, u8)> {
    program_address(seq![wallet, TOKEN_PROGRAM_ID@, mint], ASSOCIATED_TOKEN_PROGRAM_ID@)
}

/// `spl_associated_token_account::get_associated_token_address`: what the
/// associated token program derives from the wallet, the token program and the
/// mint. It does not return where nothing is derived.
#[verifier::external_body]
#[allow(deprecated)]
fn get_associated_token_address(wallet: &Pubkey, mint: &Pubkey) -> (address: Pubkey)
    requires
        token_account_at(wallet@, mint@) is Some,
    ensures
        address@ == (token_account_at(wallet@, mint@)->0).0,
{
    let wallet = solana_sdk::pubkey::Pubkey::new_from_array(wallet.bytes);
    let mint = solana_sdk::pubkey::Pubkey::new_from_array(mint.bytes);
    let address = spl_associated_token_account::get_associated_token_address(&wallet, &mint);
    Pubkey { bytes: address.to_bytes() }
}

/// The account that holds a wallet's coins of a mint, where one is derived.
pub fn token_account(wallet: &Pubkey, mint: &Pubkey) -> (address: Option<Pubkey>)
    ensures
        match address {
            Some(a) => token_account_at(wallet@, mint@) matches Some(at) && at.0 == a@,
            None => token_account_at(wallet@, mint@) is None,
        },
{
    let mut seeds: Vec<Vec<u8>> = Vec::new();
    seeds.push(vstd::slice::slice_to_vec(&wallet.bytes));
    seeds.push(vstd::slice::slice_to_vec(&TOKEN_PROGRAM_ID));
    seeds.push(vstd::slice::slice_to_vec(&mint.bytes));
    assert(seed_bytes(seeds@) =~= seq![wallet@, TOKEN_PROGRAM_ID@, mint@]);
    let owner: Pubkey = Pubkey { bytes: ASSOCIATED_TOKEN_PROGRAM_ID };
    if try_find_program_address(&seeds, &owner).is_some() {
        Some(get_associated_token_address(wallet, mint))
    } else {
        None
    }
}

/// A text is read as a key exactly where it is what the key is shown as: a key
/// that is shown is read back as itself, and nothing else is read as it.
pub proof fn a_key_is_read_from_its_own_text(text: Seq<char>, key: Seq<u8>)
    requires
        key.len() == 32,
    ensures
        key_in(text) == Ok::<Seq<u8>, Seq<char>>(key) <==> text == base58_text(key),
{
    base58_round_trips(key);
    if is_base58(text) {
        base58_texts_are_unique(text);
    }
}

} // verus!
