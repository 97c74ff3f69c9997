//! Wallet-visible metadata for the wrapped coin's mint.
//!
//! The metadata lives in an account that the Metaplex program derives from the
//! mint, so the mint itself, its authority and its decimals stay as they are.
//! Creating it needs the signature of the mint authority, which is an address
//! without a key: only the bridge program can give it.

use crate::program::errors::BridgeError;
use crate::solana::instruction::{
    borsh_string, try_token_metadata_pda, key_of, push_string, read, token_metadata_at,
    written, AccountMeta, Call, Instruction,
};
pub use crate::solana::instruction::{WRAPPED_GLC_NAME, WRAPPED_GLC_SYMBOL};
pub use crate::solana::pubkey::TOKEN_METADATA_PROGRAM_ID;
use crate::solana::pubkey::{
    rent_sysvar_id, system_program_id, Pubkey, RENT_SYSVAR_ID, SYSTEM_PROGRAM_ID,
};
use vstd::prelude::*;
use vstd::utf8::encode_utf8;

verus! {

/// The longest URI that the metadata can hold, in bytes. Beyond it the
/// metadata program fails with an error that says nothing useful.
pub const MAX_URI_LEN: usize = 200;

/// What of the bridge configuration the handler reads.
#[derive(Debug, Clone, Copy, PartialEq, Eq)]
pub struct BridgeConfig {
    pub admin: Pubkey,
    /// The all-zero key until the mint is created.
    pub wrapped_mint: Pubkey,
}

/// The account that is to hold the metadata.
#[derive(Debug, Clone, Copy, PartialEq, Eq)]
pub struct MetadataAccount {
    pub key: Pubkey,
    pub owner: Pubkey,
    pub is_empty: bool,
}

impl MetadataAccount {
    /// Whether the account already holds metadata.
    pub open spec fn is_initialized(self) -> bool {
        self.owner@ == TOKEN_METADATA_PROGRAM_ID@ && !self.is_empty
    }
}

/// The accounts of a `create_token_metadata` call. The programs and the rent
/// sysvar that it also takes are pinned to their addresses.
#[derive(Debug, Clone, Copy, PartialEq, Eq)]
pub struct CreateTokenMetadata {
    /// Signs, and pays for the account.
    pub admin: Pubkey,
    pub bridge_config: BridgeConfig,
    /// The authority that the program signs as.
    pub mint_authority: Pubkey,
    pub wrapped_mint: Pubkey,
    pub metadata: MetadataAccount,
}

/// The call of the metadata program that creates the metadata: variant 33, the
/// name, the symbol and the URI, no seller fee, no creators, no collection, no
/// uses, mutable, no collection details. The mint authority signs it, and is
/// the authority over later changes too.
pub open spec fn metadata_call(accounts: CreateTokenMetadata, uri: Seq<char>) -> Call {
    Call {
        program: TOKEN_METADATA_PROGRAM_ID@,
        accounts: seq![
            written(accounts.metadata.key@, false),
            read(accounts.wrapped_mint@, false),
            read(accounts.mint_authority@, true),
            written(accounts.admin@, true),
            read(accounts.mint_authority@, false),
            read(SYSTEM_PROGRAM_ID@, false),
            read(RENT_SYSVAR_ID@, false),
        ],
        data: seq![33u8] + borsh_string(WRAPPED_GLC_NAME@) + borsh_string(WRAPPED_GLC_SYMBOL@)
            + borsh_string(uri) + seq![0u8, 0u8, 0u8, 0u8, 0u8, 1u8, 0u8],
    }
}

/// What comes of a call, given the address that the metadata program derives
/// for the mint: a refusal, nothing to do, or a call to make.
pub open spec fn creation(
    accounts: CreateTokenMetadata,
    expected: Seq<u8>,
    uri: Seq<char>,
) -> Result<Option<Call>, BridgeError> {
    if accounts.bridge_config.admin@ != accounts.admin@ {
        Err(BridgeError::UnauthorizedAdmin)
    } else if accounts.wrapped_mint@ != accounts.bridge_config.wrapped_mint@ {
        Err(BridgeError::MintNotConfigured)
    } else if accounts.bridge_config.wrapped_mint@ == Seq::new(32, |i: int| 0u8) {
        Err(BridgeError::MintNotConfigured)
    } else if encode_utf8(uri).len() > MAX_URI_LEN {
        Err(BridgeError::UriTooLong)
    } else if accounts.metadata.key@ != expected {
        Err(BridgeError::InvalidMetadataAccount)
    } else if accounts.metadata.is_initialized() {
        Ok(None)
    } else {
        Ok(Some(metadata_call(accounts, uri)))
    }
}

/// Whether a result is what the model says.
pub open spec fn is_creation(
    result: Result<Option<Instruction>, BridgeError>,
    outcome: Result<Option<Call>, BridgeError>,
) -> bool {
    match result {
        Ok(Some(ix)) => outcome == Ok::<Option<Call>, BridgeError>(Some(ix@)),
        Ok(None) => outcome == Ok::<Option<Call>, BridgeError>(None),
        Err(e) => outcome == Err::<Option<Call>, BridgeError>(e),
    }
}

/// Decides whether the metadata is created, and with which call.
///
/// Metadata that exists is left alone, whatever the URI says: an operator who
/// is unsure whether an earlier attempt landed can run this again.
pub fn create_token_metadata(accounts: &CreateTokenMetadata, uri: &str) -> (result: Result<
    Option<Instruction>,
    BridgeError,
>)
    requires
        token_metadata_at(accounts.wrapped_mint@) is Some,
    ensures
        is_creation(
            result,
            creation(*accounts, key_of(token_metadata_at(accounts.wrapped_mint@)), uri@),
        ),
{
    let expected: Pubkey = try_token_metadata_pda(&accounts.wrapped_mint).unwrap().0;
    create_at(accounts, &expected, uri)
}

/// [`create_token_metadata`] for any mint: nothing where the metadata program
/// derives no address for it.
pub fn try_create_token_metadata(accounts: &CreateTokenMetadata, uri: &str) -> (result: Option<
    Result<Option<Instruction>, BridgeError>,
>)
    ensures
        match result {
            Some(r) => token_metadata_at(accounts.wrapped_mint@) is Some && is_creation(
                r,
                creation(*accounts, key_of(token_metadata_at(accounts.wrapped_mint@)), uri@),
            ),
            None => token_metadata_at(accounts.wrapped_mint@) is None,
        },
{
    if try_token_metadata_pda(&accounts.wrapped_mint).is_some() {
        Some(create_token_metadata(accounts, uri))
    } else {
        None
    }
}

/// Decides whether the metadata is created, given the address that the
/// metadata program derives for the mint.
pub fn create_at(accounts: &CreateTokenMetadata, expected: &Pubkey, uri: &str) -> (result: Result<
    Option<Instruction>,
    BridgeError,
>)
    ensures
        is_creation(result, creation(*accounts, expected@, uri@)),
{
    if !accounts.bridge_config.admin.same_as(&accounts.admin) {
        return Err(BridgeError::UnauthorizedAdmin);
    }
    if !accounts.wrapped_mint.same_as(&accounts.bridge_config.wrapped_mint) {
        return Err(BridgeError::MintNotConfigured);
    }
    let unset: Pubkey = Pubkey::default();
    if accounts.bridge_config.wrapped_mint.same_as(&unset) {
        return Err(BridgeError::MintNotConfigured);
    }
    if uri.as_bytes().len() > MAX_URI_LEN {
        return Err(BridgeError::UriTooLong);
    }
    if !accounts.metadata.key.same_as(expected) {
        return Err(BridgeError::InvalidMetadataAccount);
    }
    let metaplex: Pubkey = Pubkey::new_from_array(TOKEN_METADATA_PROGRAM_ID);
    if accounts.metadata.owner.same_as(&metaplex) && !accounts.metadata.is_empty {
        return Ok(None);
    }
    let mut data: Vec<u8> = Vec::new();
    data.push(33);
    assert(data@ =~= seq![33u8]);
    push_string(&mut data, WRAPPED_GLC_NAME);
    push_string(&mut data, WRAPPED_GLC_SYMBOL);
    push_string(&mut data, uri);
    let ghost named = data@;
    data.push(0);  // seller fee basis points
    data.push(0);
    data.push(0);  // creators
    data.push(0);  // collection
    data.push(0);  // uses
    data.push(1);  // is mutable
    data.push(0);  // collection details
    assert(data@ =~= named + seq![0u8, 0u8, 0u8, 0u8, 0u8, 1u8, 0u8]);
    let metas: Vec<AccountMeta> =
        vec![
        AccountMeta::new(accounts.metadata.key, false),
        AccountMeta::new_readonly(accounts.wrapped_mint, false),
        AccountMeta::new_readonly(accounts.mint_authority, true),
        AccountMeta::new(accounts.admin, true),
        AccountMeta::new_readonly(accounts.mint_authority, false),
        AccountMeta::new_readonly(system_program_id(), false),
        AccountMeta::new_readonly(rent_sysvar_id(), false),
    ];
    let ix: Instruction = Instruction { program_id: metaplex, accounts: metas, data };
    assert(ix@.accounts =~= metadata_call(*accounts, uri@).accounts);
    Ok(Some(ix))
}

/// Metadata that exists is never rewritten, whatever URI a later call brings.
pub proof fn existing_metadata_is_left_alone(
    accounts: CreateTokenMetadata,
    expected: Seq<u8>,
    uri: Seq<char>,
)
    requires
        accounts.metadata.is_initialized(),
    ensures
        creation(accounts, expected, uri) is Ok ==> creation(accounts, expected, uri) == Ok::<
            Option<Call>,
            BridgeError,
        >(None),
{
}

/// Only the admin creates metadata, only for the configured mint, and only in
/// the account that the metadata program derives for it. The mint is read and
/// never written, and the authority over later changes is the program's.
pub proof fn only_the_configured_mint_is_named(
    accounts: CreateTokenMetadata,
    expected: Seq<u8>,
    uri: Seq<char>,
    call: Call,
)
    requires
        creation(accounts, expected, uri) == Ok::<Option<Call>, BridgeError>(Some(call)),
    ensures
        accounts.admin@ == accounts.bridge_config.admin@,
        accounts.wrapped_mint@ == accounts.bridge_config.wrapped_mint@,
        call.program == TOKEN_METADATA_PROGRAM_ID@,
        call.accounts[0] == written(expected, false),
        call.accounts[1] == read(accounts.bridge_config.wrapped_mint@, false),
        call.accounts[4] == read(accounts.mint_authority@, false),
{
}

/// A call is made exactly where the admin asks for the configured mint, the mint
/// exists, the URI is no longer than it may be, and the account is the derived
/// one and holds nothing yet. Each refusal has its own cause.
pub proof fn metadata_is_created_exactly_once_by_the_admin(
    accounts: CreateTokenMetadata,
    expected: Seq<u8>,
    uri: Seq<char>,
)
    ensures
        ({
            let unset = Seq::new(32, |i: int| 0u8);
            let admin = accounts.admin@ == accounts.bridge_config.admin@;
            let mint = accounts.wrapped_mint@ == accounts.bridge_config.wrapped_mint@
                && accounts.wrapped_mint@ != unset;
            let short = encode_utf8(uri).len() <= 200;
            let derived = accounts.metadata.key@ == expected;
            let there = accounts.metadata.owner@ == TOKEN_METADATA_PROGRAM_ID@
                && !accounts.metadata.is_empty;
            let outcome = creation(accounts, expected, uri);
            &&& (outcome matches Ok(Some(_))) <==> admin && mint && short && derived && !there
            &&& outcome == Ok::<Option<Call>, BridgeError>(None) <==> admin && mint && short
                && derived && there
            &&& outcome == Err::<Option<Call>, _>(BridgeError::UnauthorizedAdmin) <==> !admin
            &&& outcome == Err::<Option<Call>, _>(BridgeError::MintNotConfigured) <==> admin && !mint
            &&& outcome == Err::<Option<Call>, _>(BridgeError::UriTooLong) <==> admin && mint
                && !short
            &&& outcome == Err::<Option<Call>, _>(BridgeError::InvalidMetadataAccount) <==> admin
                && mint && short && !derived
        }),
{
}

/// The call that creates metadata writes the metadata account and the admin's,
/// who pays, and no other. The authority over the mint signs it. What it carries
/// is the name, the symbol and the URI, and that the metadata can be changed.
pub proof fn a_creation_writes_only_the_metadata_and_the_payer(
    accounts: CreateTokenMetadata,
    uri: Seq<char>,
    i: int,
)
    ensures
        ({
            let call = metadata_call(accounts, uri);
            let text = borsh_string(WRAPPED_GLC_NAME@) + borsh_string(WRAPPED_GLC_SYMBOL@)
                + borsh_string(uri);
            &&& call.accounts.len() == 7
            &&& 0 <= i < 7 ==> (call.accounts[i].writable <==> i == 0 || i == 3)
            &&& 0 <= i < 7 ==> (call.accounts[i].signer <==> i == 2 || i == 3)
            &&& call.accounts[0].key == accounts.metadata.key@
            &&& call.accounts[2].key == accounts.mint_authority@
            &&& call.accounts[3].key == accounts.admin@
            &&& call.accounts[4].key == accounts.mint_authority@
            &&& call.data.len() == 1 + text.len() + 7
            &&& call.data[0] == 33
            &&& call.data.subrange(1, 1 + text.len() as int) == text
            &&& call.data[call.data.len() - 2] == 1
            &&& forall|k: int|
                1 + text.len() <= k < call.data.len() && k != call.data.len() - 2
                    ==> #[trigger] call.data[k] == 0
        }),
{
    let call = metadata_call(accounts, uri);
    let text = borsh_string(WRAPPED_GLC_NAME@) + borsh_string(WRAPPED_GLC_SYMBOL@) + borsh_string(
        uri,
    );
    let tail = seq![0u8, 0u8, 0u8, 0u8, 0u8, 1u8, 0u8];
    assert(call.data =~= seq![33u8] + text + tail);
    assert(call.data.subrange(1, 1 + text.len() as int) =~= text);
}

} // verus!
