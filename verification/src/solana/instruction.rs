//! Hand-built instructions for the bridge program: discriminator, Borsh
//! arguments, account metas.
//!
//! Every seed and account order here has to match the on-chain program's.

use crate::bytes::{
    from_twos_complement64, le_bytes, le_value, lemma_le_bytes_injective, lemma_le_bytes_len,
    lemma_le_value_of_le_bytes, lemma_pow256, lemma_split_equal, pow256, push_all, push_le,
    to_bits64, twos_complement64,
};
use crate::hash::{sha256, sha256_digest};
use crate::solana::pubkey::{
    instructions_sysvar_id, program_address, rent_sysvar_id, seed_bytes, system_program_id,
    token_program_id, try_find_program_address, upgradeable_loader_id,
};
pub use crate::solana::pubkey::{
    Pubkey, INSTRUCTIONS_SYSVAR_ID, RENT_SYSVAR_ID, SYSTEM_PROGRAM_ID, TOKEN_METADATA_PROGRAM_ID,
    TOKEN_PROGRAM_ID, UPGRADEABLE_LOADER_ID,
};
use vstd::prelude::*;
use vstd::utf8::encode_utf8;

verus! {

/// The bytes of `bridge_config`.
pub const SEED_BRIDGE_CONFIG: [u8; 13] = [98, 114, 105, 100, 103, 101, 95, 99, 111, 110, 102, 105, 103];

/// The bytes of `validator_set`.
pub const SEED_VALIDATOR_SET: [u8; 13] = [118, 97, 108, 105, 100, 97, 116, 111, 114, 95, 115, 101, 116];

/// The bytes of `mint_authority`.
pub const SEED_MINT_AUTHORITY: [u8; 14] = [
    109, 105, 110, 116, 95, 97, 117, 116, 104, 111, 114, 105, 116, 121,
];

/// The bytes of `deposit_claim`.
pub const SEED_DEPOSIT_CLAIM: [u8; 13] = [100, 101, 112, 111, 115, 105, 116, 95, 99, 108, 97, 105, 109];

/// The bytes of `governance_action`.
pub const SEED_GOVERNANCE_ACTION: [u8; 17] = [
    103, 111, 118, 101, 114, 110, 97, 110, 99, 101, 95, 97, 99, 116, 105, 111, 110,
];

/// The bytes of `withdrawal`.
pub const SEED_WITHDRAWAL: [u8; 10] = [119, 105, 116, 104, 100, 114, 97, 119, 97, 108];

/// The bytes of `metadata`.
pub const SEED_METADATA: [u8; 8] = [109, 101, 116, 97, 100, 97, 116, 97];

/// What wallets display. The on-chain program is what writes it.
pub const WRAPPED_GLC_NAME: &'static str = "Wrapped Goldcoin";

pub const WRAPPED_GLC_SYMBOL: &'static str = "wGLC";

/// The canonical metadata URI: hosted JSON with the token's image and display
/// fields. Not a program constant, so that hosting can move without a program
/// upgrade.
pub const WRAPPED_GLC_URI: &'static str = "https://goldcoinproject.org/assets/wglc.json";

/// An account that an instruction takes.
#[derive(Debug, Clone, Copy, PartialEq, Eq)]
pub struct AccountMeta {
    pub pubkey: Pubkey,
    pub is_signer: bool,
    pub is_writable: bool,
}

/// What an instruction says of one account.
pub struct AccountRole {
    pub key: Seq<u8>,
    pub signer: bool,
    pub writable: bool,
}

impl View for AccountMeta {
    type V = AccountRole;

    open spec fn view(&self) -> AccountRole {
        AccountRole { key: self.pubkey@, signer: self.is_signer, writable: self.is_writable }
    }
}

/// A role in which an account is written.
pub open spec fn written(key: Seq<u8>, signer: bool) -> AccountRole {
    AccountRole { key, signer, writable: true }
}

/// A role in which an account is only read.
pub open spec fn read(key: Seq<u8>, signer: bool) -> AccountRole {
    AccountRole { key, signer, writable: false }
}

impl AccountMeta {
    /// An account that is written.
    pub fn new(pubkey: Pubkey, is_signer: bool) -> (meta: Self)
        ensures
            meta@ == written(pubkey@, is_signer),
    {
        AccountMeta { pubkey, is_signer, is_writable: true }
    }

    /// An account that is only read.
    pub fn new_readonly(pubkey: Pubkey, is_signer: bool) -> (meta: Self)
        ensures
            meta@ == read(pubkey@, is_signer),
    {
        AccountMeta { pubkey, is_signer, is_writable: false }
    }
}

/// A call of a program.
#[derive(Debug, Clone, PartialEq, Eq)]
pub struct Instruction {
    pub program_id: Pubkey,
    pub accounts: Vec<AccountMeta>,
    pub data: Vec<u8>,
}

/// What a call of a program says.
pub struct Call {
    pub program: Seq<u8>,
    pub accounts: Seq<AccountRole>,
    pub data: Seq<u8>,
}

/// The roles of some accounts.
pub open spec fn roles(metas: Seq<AccountMeta>) -> Seq<AccountRole> {
    metas.map_values(|meta: AccountMeta| meta@)
}

impl View for Instruction {
    type V = Call;

    open spec fn view(&self) -> Call {
        Call { program: self.program_id@, accounts: roles(self.accounts@), data: self.data@ }
    }
}

/// The first eight bytes of the hash of the namespaced instruction name.
pub open spec fn discriminator(name: Seq<char>) -> Seq<u8> {
    Seq::new(8, |i: int| sha256(encode_utf8("global:"@ + name))[i])
}

/// A length and the UTF-8 bytes.
pub open spec fn borsh_string(text: Seq<char>) -> Seq<u8> {
    le_bytes(encode_utf8(text).len(), 4) + encode_utf8(text)
}

/// The keys one after another.
pub open spec fn key_bytes(keys: Seq<Pubkey>) -> Seq<u8>
    decreases keys.len(),
{
    if keys.len() == 0 {
        Seq::empty()
    } else {
        key_bytes(keys.drop_last()) + keys.last()@
    }
}

/// A length and the keys.
pub open spec fn borsh_keys(keys: Seq<Pubkey>) -> Seq<u8> {
    le_bytes(keys.len(), 4) + key_bytes(keys)
}

pub open spec fn borsh_bool(value: bool) -> Seq<u8> {
    seq![
        if value {
            1u8
        } else {
            0u8
        },
    ]
}

/// The 8-byte Anchor instruction discriminator.
pub fn anchor_discriminator(name: &str) -> (out: [u8; 8])
    ensures
        out@ == discriminator(name@),
{
    let mut text: String = String::from_str("global:");
    text.append(name);
    let hash: [u8; 32] = sha256_digest(text.as_str().as_bytes());
    let mut out: [u8; 8] = [0u8; 8];
    let mut i: usize = 0;
    while i < 8
        invariant
            i <= 8,
            forall|j: int| 0 <= j < i ==> out@[j] == hash@[j],
        decreases 8 - i,
    {
        out[i] = hash[i];
        i = i + 1;
    }
    assert(out@ =~= discriminator(name@));
    out
}

/// Instruction data that starts with a discriminator.
fn start_data(name: &str) -> (data: Vec<u8>)
    ensures
        data@ == discriminator(name@),
{
    let mut data: Vec<u8> = Vec::new();
    push_all(&mut data, &anchor_discriminator(name));
    assert(data@ =~= discriminator(name@));
    data
}

pub(crate) fn push_string(data: &mut Vec<u8>, text: &str)
    ensures
        final(data)@ == old(data)@ + borsh_string(text@),
{
    let bytes: &[u8] = text.as_bytes();
    push_le(data, bytes.len() as u64, 4);
    push_all(data, bytes);
    assert(data@ =~= old(data)@ + borsh_string(text@));
}

fn push_keys(data: &mut Vec<u8>, keys: &[Pubkey])
    ensures
        final(data)@ == old(data)@ + borsh_keys(keys@),
{
    push_le(data, keys.len() as u64, 4);
    let ghost head = data@;
    let mut i: usize = 0;
    assert(head + key_bytes(keys@.take(0)) =~= head);
    while i < keys.len()
        invariant
            i <= keys@.len(),
            data@ == head + key_bytes(keys@.take(i as int)),
        decreases keys@.len() - i,
    {
        push_all(data, &keys[i].bytes);
        i = i + 1;
        proof {
            let taken = keys@.take(i as int);
            assert(taken.drop_last() =~= keys@.take(i - 1));
            assert(data@ =~= head + key_bytes(taken));
        }
    }
    assert(keys@.take(keys@.len() as int) =~= keys@);
    assert(data@ =~= old(data)@ + borsh_keys(keys@));
}

fn push_bool(data: &mut Vec<u8>, value: bool)
    ensures
        final(data)@ == old(data)@ + borsh_bool(value),
{
    data.push(
        if value {
            1
        } else {
            0
        },
    );
    assert(data@ =~= old(data)@ + borsh_bool(value));
}

/// A byte string as a seed.
fn seed(bytes: &[u8]) -> (seed: Vec<u8>)
    ensures
        seed@ == bytes@,
{
    let mut seed: Vec<u8> = Vec::new();
    push_all(&mut seed, bytes);
    assert(seed@ =~= bytes@);
    seed
}

/// The address that a program derives from one seed.
fn find_from_one(bytes: &[u8], program_id: &Pubkey) -> (found: Option<(Pubkey, u8)>)
    ensures
        match found {
            Some(address) => program_address(seq![bytes@], program_id@) == Some(
                (address.0@, address.1),
            ),
            None => program_address(seq![bytes@], program_id@) is None,
        },
{
    let mut seeds: Vec<Vec<u8>> = Vec::new();
    seeds.push(seed(bytes));
    assert(seed_bytes(seeds@) =~= seq![bytes@]);
    try_find_program_address(&seeds, program_id)
}

/// The address of a search that found one.
pub open spec fn key_of(at: Option<(Seq<u8>, u8)>) -> Seq<u8>
    recommends
        at is Some,
{
    (at->0).0
}

/// Whether a search found what the name says.
pub open spec fn is_found(found: Option<(Pubkey, u8)>, at: Option<(Seq<u8>, u8)>) -> bool {
    match found {
        Some(address) => at == Some((address.0@, address.1)),
        None => at is None,
    }
}

/// The bridge configuration.
pub open spec fn bridge_config_at(program: Seq<u8>) -> Option<(Seq<u8>, u8)> {
    program_address(seq![SEED_BRIDGE_CONFIG@], program)
}

/// The bridge configuration, where the address exists.
pub fn try_bridge_config_pda(program_id: &Pubkey) -> (found: Option<(Pubkey, u8)>)
    ensures
        is_found(found, bridge_config_at(program_id@)),
{
    find_from_one(&SEED_BRIDGE_CONFIG, program_id)
}

/// The bridge configuration.
pub fn bridge_config_pda(program_id: &Pubkey) -> (address: (Pubkey, u8))
    requires
        bridge_config_at(program_id@) is Some,
    ensures
        bridge_config_at(program_id@) == Some((address.0@, address.1)),
{
    try_bridge_config_pda(program_id).unwrap()
}

/// The validator set.
pub open spec fn validator_set_at(program: Seq<u8>) -> Option<(Seq<u8>, u8)> {
    program_address(seq![SEED_VALIDATOR_SET@], program)
}

/// The validator set, where the address exists.
pub fn try_validator_set_pda(program_id: &Pubkey) -> (found: Option<(Pubkey, u8)>)
    ensures
        is_found(found, validator_set_at(program_id@)),
{
    find_from_one(&SEED_VALIDATOR_SET, program_id)
}

/// The validator set.
pub fn validator_set_pda(program_id: &Pubkey) -> (address: (Pubkey, u8))
    requires
        validator_set_at(program_id@) is Some,
    ensures
        validator_set_at(program_id@) == Some((address.0@, address.1)),
{
    try_validator_set_pda(program_id).unwrap()
}

/// The authority that mints wrapped coins.
pub open spec fn mint_authority_at(program: Seq<u8>) -> Option<(Seq<u8>, u8)> {
    program_address(seq![SEED_MINT_AUTHORITY@], program)
}

/// The authority that mints wrapped coins, where the address exists.
pub fn try_mint_authority_pda(program_id: &Pubkey) -> (found: Option<(Pubkey, u8)>)
    ensures
        is_found(found, mint_authority_at(program_id@)),
{
    find_from_one(&SEED_MINT_AUTHORITY, program_id)
}

/// The authority that mints wrapped coins.
pub fn mint_authority_pda(program_id: &Pubkey) -> (address: (Pubkey, u8))
    requires
        mint_authority_at(program_id@) is Some,
    ensures
        mint_authority_at(program_id@) == Some((address.0@, address.1)),
{
    try_mint_authority_pda(program_id).unwrap()
}

/// The one pending governance action.
pub open spec fn governance_action_at(program: Seq<u8>) -> Option<(Seq<u8>, u8)> {
    program_address(seq![SEED_GOVERNANCE_ACTION@], program)
}

/// The one pending governance action, where the address exists.
pub fn try_governance_action_pda(program_id: &Pubkey) -> (found: Option<(Pubkey, u8)>)
    ensures
        is_found(found, governance_action_at(program_id@)),
{
    find_from_one(&SEED_GOVERNANCE_ACTION, program_id)
}

/// The one pending governance action.
pub fn governance_action_pda(program_id: &Pubkey) -> (address: (Pubkey, u8))
    requires
        governance_action_at(program_id@) is Some,
    ensures
        governance_action_at(program_id@) == Some((address.0@, address.1)),
{
    try_governance_action_pda(program_id).unwrap()
}

/// The claim of one Goldcoin deposit.
pub open spec fn deposit_claim_at(program: Seq<u8>, txid: Seq<u8>, vout: u32) -> Option<
    (Seq<u8>, u8),
> {
    program_address(seq![SEED_DEPOSIT_CLAIM@, txid, le_bytes(vout as nat, 4)], program)
}

fn find_deposit_claim(program_id: &Pubkey, txid: &[u8; 32], vout: u32) -> (found: Option<
    (Pubkey, u8),
>)
    ensures
        is_found(found, deposit_claim_at(program_id@, txid@, vout)),
{
    let mut index: Vec<u8> = Vec::new();
    push_le(&mut index, vout as u64, 4);
    assert(index@ =~= le_bytes(vout as nat, 4));
    let mut seeds: Vec<Vec<u8>> = Vec::new();
    seeds.push(seed(&SEED_DEPOSIT_CLAIM));
    seeds.push(seed(txid));
    seeds.push(index);
    assert(seed_bytes(seeds@) =~= seq![SEED_DEPOSIT_CLAIM@, txid@, le_bytes(vout as nat, 4)]);
    try_find_program_address(&seeds, program_id)
}

/// The claim of one Goldcoin deposit.
pub fn deposit_claim_pda(program_id: &Pubkey, txid: &[u8; 32], vout: u32) -> (address: (Pubkey, u8))
    requires
        deposit_claim_at(program_id@, txid@, vout) is Some,
    ensures
        deposit_claim_at(program_id@, txid@, vout) == Some((address.0@, address.1)),
{
    find_deposit_claim(program_id, txid, vout).unwrap()
}

/// The claim of one Goldcoin deposit, where the address exists.
pub fn try_deposit_claim_pda(program_id: &Pubkey, txid: &[u8; 32], vout: u32) -> (found: Option<
    (Pubkey, u8),
>)
    ensures
        is_found(found, deposit_claim_at(program_id@, txid@, vout)),
{
    if find_deposit_claim(program_id, txid, vout).is_some() {
        Some(deposit_claim_pda(program_id, txid, vout))
    } else {
        None
    }
}

/// The record of one withdrawal.
pub open spec fn withdrawal_at(program: Seq<u8>, index: u64) -> Option<(Seq<u8>, u8)> {
    program_address(seq![SEED_WITHDRAWAL@, le_bytes(index as nat, 8)], program)
}

fn find_withdrawal(program_id: &Pubkey, index: u64) -> (found: Option<(Pubkey, u8)>)
    ensures
        is_found(found, withdrawal_at(program_id@, index)),
{
    let mut index_bytes: Vec<u8> = Vec::new();
    push_le(&mut index_bytes, index, 8);
    assert(index_bytes@ =~= le_bytes(index as nat, 8));
    let mut seeds: Vec<Vec<u8>> = Vec::new();
    seeds.push(seed(&SEED_WITHDRAWAL));
    seeds.push(index_bytes);
    assert(seed_bytes(seeds@) =~= seq![SEED_WITHDRAWAL@, le_bytes(index as nat, 8)]);
    try_find_program_address(&seeds, program_id)
}

/// The record of one withdrawal.
pub fn withdrawal_pda(program_id: &Pubkey, index: u64) -> (address: (Pubkey, u8))
    requires
        withdrawal_at(program_id@, index) is Some,
    ensures
        withdrawal_at(program_id@, index) == Some((address.0@, address.1)),
{
    find_withdrawal(program_id, index).unwrap()
}

/// The record of one withdrawal, where the address exists.
pub fn try_withdrawal_pda(program_id: &Pubkey, index: u64) -> (found: Option<(Pubkey, u8)>)
    ensures
        is_found(found, withdrawal_at(program_id@, index)),
{
    if find_withdrawal(program_id, index).is_some() {
        Some(withdrawal_pda(program_id, index))
    } else {
        None
    }
}

/// The account that the upgradeable loader keeps for a program.
pub open spec fn program_data_at(program: Seq<u8>) -> Option<(Seq<u8>, u8)> {
    program_address(seq![program], UPGRADEABLE_LOADER_ID@)
}

fn find_program_data(program_id: &Pubkey) -> (found: Option<(Pubkey, u8)>)
    ensures
        is_found(found, program_data_at(program_id@)),
{
    find_from_one(&program_id.bytes, &upgradeable_loader_id())
}

/// The account that the upgradeable loader keeps for a program. `initialize`
/// reads it to prove that the caller is the upgrade authority.
pub fn program_data_address(program_id: &Pubkey) -> (address: Pubkey)
    requires
        program_data_at(program_id@) is Some,
    ensures
        address@ == key_of(program_data_at(program_id@)),
{
    find_program_data(program_id).unwrap().0
}

/// The metadata account of a mint, under the Metaplex program.
pub open spec fn token_metadata_at(mint: Seq<u8>) -> Option<(Seq<u8>, u8)> {
    program_address(
        seq![SEED_METADATA@, TOKEN_METADATA_PROGRAM_ID@, mint],
        TOKEN_METADATA_PROGRAM_ID@,
    )
}

/// The metadata account of a mint, where the address exists.
pub fn try_token_metadata_pda(mint: &Pubkey) -> (found: Option<(Pubkey, u8)>)
    ensures
        is_found(found, token_metadata_at(mint@)),
{
    let mut seeds: Vec<Vec<u8>> = Vec::new();
    seeds.push(seed(&SEED_METADATA));
    seeds.push(seed(&TOKEN_METADATA_PROGRAM_ID));
    seeds.push(seed(&mint.bytes));
    assert(seed_bytes(seeds@) =~= seq![SEED_METADATA@, TOKEN_METADATA_PROGRAM_ID@, mint@]);
    try_find_program_address(&seeds, &Pubkey { bytes: TOKEN_METADATA_PROGRAM_ID })
}

/// The metadata account of a mint, derived under the **Metaplex** program, not
/// under the bridge.
pub fn token_metadata_pda(mint: &Pubkey) -> (address: (Pubkey, u8))
    requires
        token_metadata_at(mint@) is Some,
    ensures
        token_metadata_at(mint@) == Some((address.0@, address.1)),
{
    try_token_metadata_pda(mint).unwrap()
}

/// Whether the accounts that every governance call names have addresses.
pub open spec fn can_govern(program: Seq<u8>) -> bool {
    &&& bridge_config_at(program) is Some
    &&& validator_set_at(program) is Some
    &&& governance_action_at(program) is Some
}

/// Whether the accounts that `initialize` names have addresses.
pub open spec fn can_start(program: Seq<u8>) -> bool {
    &&& bridge_config_at(program) is Some
    &&& validator_set_at(program) is Some
    &&& program_data_at(program) is Some
}

/// Whether the accounts that `create_wrapped_mint` names have addresses.
pub open spec fn can_create_mint(program: Seq<u8>) -> bool {
    bridge_config_at(program) is Some && mint_authority_at(program) is Some
}

/// Whether the accounts that the metadata calls name have addresses.
pub open spec fn can_describe(program: Seq<u8>, mint: Seq<u8>) -> bool {
    &&& bridge_config_at(program) is Some
    &&& mint_authority_at(program) is Some
    &&& token_metadata_at(mint) is Some
}

/// The accounts that `mint_wrapped` takes.
pub struct MintWrappedAccounts {
    pub submitter: Pubkey,
    pub bridge_config: Pubkey,
    pub validator_set: Pubkey,
    pub deposit_claim: Pubkey,
    pub wrapped_mint: Pubkey,
    pub mint_authority: Pubkey,
    pub recipient: Pubkey,
    pub recipient_token_account: Pubkey,
}

/// The arguments of `mint_wrapped`.
pub open spec fn mint_wrapped_data(txid: Seq<u8>, vout: u32, amount: u64, epoch: u64) -> Seq<u8> {
    discriminator("mint_wrapped"@) + txid + le_bytes(vout as nat, 4) + le_bytes(amount as nat, 8)
        + le_bytes(epoch as nat, 8)
}

/// Builds the `mint_wrapped` instruction.
pub fn mint_wrapped_instruction(
    program_id: &Pubkey,
    accounts: &MintWrappedAccounts,
    txid: [u8; 32],
    vout: u32,
    amount: u64,
    epoch: u64,
) -> (ix: Instruction)
    ensures
        ix@ == (Call {
            program: program_id@,
            accounts: seq![
                written(accounts.submitter@, true),
                read(accounts.bridge_config@, false),
                read(accounts.validator_set@, false),
                written(accounts.deposit_claim@, false),
                written(accounts.wrapped_mint@, false),
                read(accounts.mint_authority@, false),
                read(accounts.recipient@, false),
                written(accounts.recipient_token_account@, false),
                read(INSTRUCTIONS_SYSVAR_ID@, false),
                read(TOKEN_PROGRAM_ID@, false),
                read(SYSTEM_PROGRAM_ID@, false),
            ],
            data: mint_wrapped_data(txid@, vout, amount, epoch),
        }),
{
    let mut data: Vec<u8> = start_data("mint_wrapped");
    push_all(&mut data, &txid);
    push_le(&mut data, vout as u64, 4);
    push_le(&mut data, amount, 8);
    push_le(&mut data, epoch, 8);
    let metas: Vec<AccountMeta> = vec![
        AccountMeta::new(accounts.submitter, true),
        AccountMeta::new_readonly(accounts.bridge_config, false),
        AccountMeta::new_readonly(accounts.validator_set, false),
        AccountMeta::new(accounts.deposit_claim, false),
        AccountMeta::new(accounts.wrapped_mint, false),
        AccountMeta::new_readonly(accounts.mint_authority, false),
        AccountMeta::new_readonly(accounts.recipient, false),
        AccountMeta::new(accounts.recipient_token_account, false),
        AccountMeta::new_readonly(instructions_sysvar_id(), false),
        AccountMeta::new_readonly(token_program_id(), false),
        AccountMeta::new_readonly(system_program_id(), false),
    ];
    let ix: Instruction = Instruction { program_id: *program_id, accounts: metas, data };
    assert(ix@.accounts =~= seq![
        written(accounts.submitter@, true),
        read(accounts.bridge_config@, false),
        read(accounts.validator_set@, false),
        written(accounts.deposit_claim@, false),
        written(accounts.wrapped_mint@, false),
        read(accounts.mint_authority@, false),
        read(accounts.recipient@, false),
        written(accounts.recipient_token_account@, false),
        read(INSTRUCTIONS_SYSVAR_ID@, false),
        read(TOKEN_PROGRAM_ID@, false),
        read(SYSTEM_PROGRAM_ID@, false),
    ]);
    ix
}

/// The accounts that `complete_withdrawal` takes.
pub struct CompleteWithdrawalAccounts {
    /// Pays fees only; confers no authority.
    pub submitter: Pubkey,
    pub bridge_config: Pubkey,
    pub validator_set: Pubkey,
    pub withdrawal: Pubkey,
}

/// The arguments of `complete_withdrawal`.
pub open spec fn complete_withdrawal_data(
    index: u64,
    payout_txid: Seq<u8>,
    payout_height: u64,
    epoch: u64,
) -> Seq<u8> {
    discriminator("complete_withdrawal"@) + le_bytes(index as nat, 8) + payout_txid + le_bytes(
        payout_height as nat,
        8,
    ) + le_bytes(epoch as nat, 8)
}

/// Builds the `complete_withdrawal` instruction.
pub fn complete_withdrawal_instruction(
    program_id: &Pubkey,
    accounts: &CompleteWithdrawalAccounts,
    index: u64,
    payout_txid: [u8; 32],
    payout_height: u64,
    epoch: u64,
) -> (ix: Instruction)
    ensures
        ix@ == (Call {
            program: program_id@,
            accounts: seq![
                written(accounts.submitter@, true),
                read(accounts.bridge_config@, false),
                read(accounts.validator_set@, false),
                written(accounts.withdrawal@, false),
                read(INSTRUCTIONS_SYSVAR_ID@, false),
            ],
            data: complete_withdrawal_data(index, payout_txid@, payout_height, epoch),
        }),
{
    let mut data: Vec<u8> = start_data("complete_withdrawal");
    push_le(&mut data, index, 8);
    push_all(&mut data, &payout_txid);
    push_le(&mut data, payout_height, 8);
    push_le(&mut data, epoch, 8);
    let metas: Vec<AccountMeta> = vec![
        AccountMeta::new(accounts.submitter, true),
        AccountMeta::new_readonly(accounts.bridge_config, false),
        AccountMeta::new_readonly(accounts.validator_set, false),
        AccountMeta::new(accounts.withdrawal, false),
        AccountMeta::new_readonly(instructions_sysvar_id(), false),
    ];
    let ix: Instruction = Instruction { program_id: *program_id, accounts: metas, data };
    assert(ix@.accounts =~= seq![
        written(accounts.submitter@, true),
        read(accounts.bridge_config@, false),
        read(accounts.validator_set@, false),
        written(accounts.withdrawal@, false),
        read(INSTRUCTIONS_SYSVAR_ID@, false),
    ]);
    ix
}

/// The destination commitment bound into a completion message: the hash of
/// the withdrawal's Goldcoin address exactly as the on-chain account stores
/// it, never of a re-encoded or normalised form.
pub fn destination_commitment(glc_address_bytes: &[u8]) -> (digest: [u8; 32])
    ensures
        digest@ == sha256(glc_address_bytes@),
{
    sha256_digest(glc_address_bytes)
}

/// What `set_paused` says.
pub open spec fn set_paused_call(program: Seq<u8>, admin: Seq<u8>, paused: bool) -> Call {
    Call {
        program,
        accounts: seq![
            read(admin, true),
            written(key_of(bridge_config_at(program)), false),
        ],
        data: discriminator("set_paused"@) + borsh_bool(paused),
    }
}

/// `set_paused` — the admin-only circuit breaker.
pub fn set_paused_instruction(
    program_id: &Pubkey,
    admin: &Pubkey,
    paused: bool,
) -> (ix: Instruction)
    requires
        bridge_config_at(program_id@) is Some,
    ensures
        ix@ == set_paused_call(program_id@, admin@, paused),
{
    let mut data: Vec<u8> = start_data("set_paused");
    push_bool(&mut data, paused);
    let metas: Vec<AccountMeta> = vec![
        AccountMeta::new_readonly(*admin, true),
        AccountMeta::new(bridge_config_pda(program_id).0, false),
    ];
    let ix: Instruction = Instruction { program_id: *program_id, accounts: metas, data };
    assert(ix@.accounts =~= set_paused_call(program_id@, admin@, paused).accounts);
    ix
}

/// The same, where the addresses it needs exist.
pub fn try_set_paused_instruction(
    program_id: &Pubkey,
    admin: &Pubkey,
    paused: bool,
) -> (result: Option<Instruction>)
    ensures
        match result {
            Some(ix) => bridge_config_at(program_id@) is Some
                && ix@ == set_paused_call(program_id@, admin@, paused),
            None => !(bridge_config_at(program_id@) is Some),
        },
{
    if try_bridge_config_pda(program_id).is_some() {
        Some(set_paused_instruction(program_id, admin, paused))
    } else {
        None
    }
}

/// What `lower_wrapped_supply_cap` says.
pub open spec fn lower_supply_cap_call(program: Seq<u8>, admin: Seq<u8>, new_max: u64) -> Call {
    Call {
        program,
        accounts: seq![
            read(admin, true),
            written(key_of(bridge_config_at(program)), false),
        ],
        data: discriminator("lower_wrapped_supply_cap"@) + le_bytes(new_max as nat, 8),
    }
}

/// `lower_wrapped_supply_cap` — admin-only, immediate, and only downward.
pub fn lower_supply_cap_instruction(
    program_id: &Pubkey,
    admin: &Pubkey,
    new_max: u64,
) -> (ix: Instruction)
    requires
        bridge_config_at(program_id@) is Some,
    ensures
        ix@ == lower_supply_cap_call(program_id@, admin@, new_max),
{
    let mut data: Vec<u8> = start_data("lower_wrapped_supply_cap");
    push_le(&mut data, new_max, 8);
    let metas: Vec<AccountMeta> = vec![
        AccountMeta::new_readonly(*admin, true),
        AccountMeta::new(bridge_config_pda(program_id).0, false),
    ];
    let ix: Instruction = Instruction { program_id: *program_id, accounts: metas, data };
    assert(ix@.accounts =~= lower_supply_cap_call(program_id@, admin@, new_max).accounts);
    ix
}

/// The same, where the addresses it needs exist.
pub fn try_lower_supply_cap_instruction(
    program_id: &Pubkey,
    admin: &Pubkey,
    new_max: u64,
) -> (result: Option<Instruction>)
    ensures
        match result {
            Some(ix) => bridge_config_at(program_id@) is Some
                && ix@ == lower_supply_cap_call(program_id@, admin@, new_max),
            None => !(bridge_config_at(program_id@) is Some),
        },
{
    if try_bridge_config_pda(program_id).is_some() {
        Some(lower_supply_cap_instruction(program_id, admin, new_max))
    } else {
        None
    }
}

/// What `propose_validator_rotation` says.
pub open spec fn propose_rotation_call(
    program: Seq<u8>,
    proposer: Seq<u8>,
    validators: Seq<Pubkey>,
    threshold: u8,
) -> Call {
    Call {
        program,
        accounts: seq![
            written(proposer, true),
            read(key_of(bridge_config_at(program)), false),
            read(key_of(validator_set_at(program)), false),
            written(key_of(governance_action_at(program)), false),
            read(INSTRUCTIONS_SYSVAR_ID@, false),
            read(SYSTEM_PROGRAM_ID@, false),
        ],
        data: discriminator("propose_validator_rotation"@)
            + borsh_keys(validators)
            + seq![threshold],
    }
}

/// `propose_validator_rotation` — queues a rotation behind the timelock. The
/// federation proof in the preceding ed25519 instruction is the only
/// authorization; the proposer merely pays.
pub fn propose_rotation_instruction(
    program_id: &Pubkey,
    proposer: &Pubkey,
    validators: &[Pubkey],
    threshold: u8,
) -> (ix: Instruction)
    requires
        can_govern(program_id@),
    ensures
        ix@ == propose_rotation_call(program_id@, proposer@, validators@, threshold),
{
    let mut data: Vec<u8> = start_data("propose_validator_rotation");
    push_keys(&mut data, validators);
    let ghost before = data@;
    data.push(threshold);
    assert(data@ =~= before + seq![threshold]);
    let metas: Vec<AccountMeta> = vec![
        AccountMeta::new(*proposer, true),
        AccountMeta::new_readonly(bridge_config_pda(program_id).0, false),
        AccountMeta::new_readonly(validator_set_pda(program_id).0, false),
        AccountMeta::new(governance_action_pda(program_id).0, false),
        AccountMeta::new_readonly(instructions_sysvar_id(), false),
        AccountMeta::new_readonly(system_program_id(), false),
    ];
    let ix: Instruction = Instruction { program_id: *program_id, accounts: metas, data };
    assert(ix@.accounts =~= propose_rotation_call(
        program_id@,
        proposer@,
        validators@,
        threshold,
    ).accounts);
    ix
}

/// The same, where the addresses it needs exist.
pub fn try_propose_rotation_instruction(
    program_id: &Pubkey,
    proposer: &Pubkey,
    validators: &[Pubkey],
    threshold: u8,
) -> (result: Option<Instruction>)
    ensures
        match result {
            Some(ix) => can_govern(program_id@)
                && ix@ == propose_rotation_call(program_id@, proposer@, validators@, threshold),
            None => !(can_govern(program_id@)),
        },
{
    if try_bridge_config_pda(program_id).is_some()
        && try_validator_set_pda(program_id).is_some()
        && try_governance_action_pda(program_id).is_some()
    {
        Some(propose_rotation_instruction(program_id, proposer, validators, threshold))
    } else {
        None
    }
}

/// What `execute_validator_rotation` says.
pub open spec fn execute_rotation_call(program: Seq<u8>, executor: Seq<u8>) -> Call {
    Call {
        program,
        accounts: seq![
            written(executor, true),
            read(key_of(bridge_config_at(program)), false),
            written(key_of(validator_set_at(program)), false),
            written(key_of(governance_action_at(program)), false),
        ],
        data: discriminator("execute_validator_rotation"@),
    }
}

/// `execute_validator_rotation` — applies a queued rotation once its timelock
/// has elapsed. It writes the validator set and only reads the configuration.
pub fn execute_rotation_instruction(program_id: &Pubkey, executor: &Pubkey) -> (ix: Instruction)
    requires
        can_govern(program_id@),
    ensures
        ix@ == execute_rotation_call(program_id@, executor@),
{
    let data: Vec<u8> = start_data("execute_validator_rotation");
    let metas: Vec<AccountMeta> = vec![
        AccountMeta::new(*executor, true),
        AccountMeta::new_readonly(bridge_config_pda(program_id).0, false),
        AccountMeta::new(validator_set_pda(program_id).0, false),
        AccountMeta::new(governance_action_pda(program_id).0, false),
    ];
    let ix: Instruction = Instruction { program_id: *program_id, accounts: metas, data };
    assert(ix@.accounts =~= execute_rotation_call(program_id@, executor@).accounts);
    ix
}

/// The same, where the addresses it needs exist.
pub fn try_execute_rotation_instruction(
    program_id: &Pubkey,
    executor: &Pubkey,
) -> (result: Option<Instruction>)
    ensures
        match result {
            Some(ix) => can_govern(program_id@)
                && ix@ == execute_rotation_call(program_id@, executor@),
            None => !(can_govern(program_id@)),
        },
{
    if try_bridge_config_pda(program_id).is_some()
        && try_validator_set_pda(program_id).is_some()
        && try_governance_action_pda(program_id).is_some()
    {
        Some(execute_rotation_instruction(program_id, executor))
    } else {
        None
    }
}

/// What `cancel_validator_rotation` says.
pub open spec fn cancel_rotation_call(program: Seq<u8>, canceller: Seq<u8>) -> Call {
    Call {
        program,
        accounts: seq![
            written(canceller, true),
            read(key_of(bridge_config_at(program)), false),
            read(key_of(validator_set_at(program)), false),
            written(key_of(governance_action_at(program)), false),
            read(INSTRUCTIONS_SYSVAR_ID@, false),
        ],
        data: discriminator("cancel_validator_rotation"@),
    }
}

/// `cancel_validator_rotation` — cancels the pending action under a fresh
/// federation proof. It creates nothing, so it takes no system program.
pub fn cancel_rotation_instruction(program_id: &Pubkey, canceller: &Pubkey) -> (ix: Instruction)
    requires
        can_govern(program_id@),
    ensures
        ix@ == cancel_rotation_call(program_id@, canceller@),
{
    let data: Vec<u8> = start_data("cancel_validator_rotation");
    let metas: Vec<AccountMeta> = vec![
        AccountMeta::new(*canceller, true),
        AccountMeta::new_readonly(bridge_config_pda(program_id).0, false),
        AccountMeta::new_readonly(validator_set_pda(program_id).0, false),
        AccountMeta::new(governance_action_pda(program_id).0, false),
        AccountMeta::new_readonly(instructions_sysvar_id(), false),
    ];
    let ix: Instruction = Instruction { program_id: *program_id, accounts: metas, data };
    assert(ix@.accounts =~= cancel_rotation_call(program_id@, canceller@).accounts);
    ix
}

/// The same, where the addresses it needs exist.
pub fn try_cancel_rotation_instruction(
    program_id: &Pubkey,
    canceller: &Pubkey,
) -> (result: Option<Instruction>)
    ensures
        match result {
            Some(ix) => can_govern(program_id@)
                && ix@ == cancel_rotation_call(program_id@, canceller@),
            None => !(can_govern(program_id@)),
        },
{
    if try_bridge_config_pda(program_id).is_some()
        && try_validator_set_pda(program_id).is_some()
        && try_governance_action_pda(program_id).is_some()
    {
        Some(cancel_rotation_instruction(program_id, canceller))
    } else {
        None
    }
}

/// What `propose_wrapped_supply_cap_raise` says.
pub open spec fn propose_cap_raise_call(program: Seq<u8>, proposer: Seq<u8>, new_max: u64) -> Call {
    Call {
        program,
        accounts: seq![
            written(proposer, true),
            read(key_of(bridge_config_at(program)), false),
            read(key_of(validator_set_at(program)), false),
            written(key_of(governance_action_at(program)), false),
            read(INSTRUCTIONS_SYSVAR_ID@, false),
            read(SYSTEM_PROGRAM_ID@, false),
        ],
        data: discriminator("propose_wrapped_supply_cap_raise"@) + le_bytes(new_max as nat, 8),
    }
}

/// `propose_wrapped_supply_cap_raise` — queues a cap increase under the same
/// threshold and timelock as a rotation.
pub fn propose_cap_raise_instruction(
    program_id: &Pubkey,
    proposer: &Pubkey,
    new_max: u64,
) -> (ix: Instruction)
    requires
        can_govern(program_id@),
    ensures
        ix@ == propose_cap_raise_call(program_id@, proposer@, new_max),
{
    let mut data: Vec<u8> = start_data("propose_wrapped_supply_cap_raise");
    push_le(&mut data, new_max, 8);
    let metas: Vec<AccountMeta> = vec![
        AccountMeta::new(*proposer, true),
        AccountMeta::new_readonly(bridge_config_pda(program_id).0, false),
        AccountMeta::new_readonly(validator_set_pda(program_id).0, false),
        AccountMeta::new(governance_action_pda(program_id).0, false),
        AccountMeta::new_readonly(instructions_sysvar_id(), false),
        AccountMeta::new_readonly(system_program_id(), false),
    ];
    let ix: Instruction = Instruction { program_id: *program_id, accounts: metas, data };
    assert(ix@.accounts =~= propose_cap_raise_call(program_id@, proposer@, new_max).accounts);
    ix
}

/// The same, where the addresses it needs exist.
pub fn try_propose_cap_raise_instruction(
    program_id: &Pubkey,
    proposer: &Pubkey,
    new_max: u64,
) -> (result: Option<Instruction>)
    ensures
        match result {
            Some(ix) => can_govern(program_id@)
                && ix@ == propose_cap_raise_call(program_id@, proposer@, new_max),
            None => !(can_govern(program_id@)),
        },
{
    if try_bridge_config_pda(program_id).is_some()
        && try_validator_set_pda(program_id).is_some()
        && try_governance_action_pda(program_id).is_some()
    {
        Some(propose_cap_raise_instruction(program_id, proposer, new_max))
    } else {
        None
    }
}

/// What `execute_wrapped_supply_cap_raise` says.
pub open spec fn execute_cap_raise_call(program: Seq<u8>, executor: Seq<u8>) -> Call {
    Call {
        program,
        accounts: seq![
            written(executor, true),
            written(key_of(bridge_config_at(program)), false),
            read(key_of(validator_set_at(program)), false),
            written(key_of(governance_action_at(program)), false),
        ],
        data: discriminator("execute_wrapped_supply_cap_raise"@),
    }
}

/// `execute_wrapped_supply_cap_raise` — applies a queued increase once its
/// timelock has elapsed. It writes the configuration and only reads the
/// validator set.
pub fn execute_cap_raise_instruction(program_id: &Pubkey, executor: &Pubkey) -> (ix: Instruction)
    requires
        can_govern(program_id@),
    ensures
        ix@ == execute_cap_raise_call(program_id@, executor@),
{
    let data: Vec<u8> = start_data("execute_wrapped_supply_cap_raise");
    let metas: Vec<AccountMeta> = vec![
        AccountMeta::new(*executor, true),
        AccountMeta::new(bridge_config_pda(program_id).0, false),
        AccountMeta::new_readonly(validator_set_pda(program_id).0, false),
        AccountMeta::new(governance_action_pda(program_id).0, false),
    ];
    let ix: Instruction = Instruction { program_id: *program_id, accounts: metas, data };
    assert(ix@.accounts =~= execute_cap_raise_call(program_id@, executor@).accounts);
    ix
}

/// The same, where the addresses it needs exist.
pub fn try_execute_cap_raise_instruction(
    program_id: &Pubkey,
    executor: &Pubkey,
) -> (result: Option<Instruction>)
    ensures
        match result {
            Some(ix) => can_govern(program_id@)
                && ix@ == execute_cap_raise_call(program_id@, executor@),
            None => !(can_govern(program_id@)),
        },
{
    if try_bridge_config_pda(program_id).is_some()
        && try_validator_set_pda(program_id).is_some()
        && try_governance_action_pda(program_id).is_some()
    {
        Some(execute_cap_raise_instruction(program_id, executor))
    } else {
        None
    }
}

/// What `initialize` says.
pub open spec fn initialize_call(
    program: Seq<u8>,
    authority: Seq<u8>,
    validators: Seq<Pubkey>,
    threshold: u8,
    min_deposit: u64,
    min_withdrawal: u64,
    governance_timelock_seconds: i64,
    max_wrapped_supply: u64,
) -> Call {
    Call {
        program,
        accounts: seq![
            written(authority, true),
            written(key_of(bridge_config_at(program)), false),
            written(key_of(validator_set_at(program)), false),
            read(program, false),
            read(key_of(program_data_at(program)), false),
            read(SYSTEM_PROGRAM_ID@, false),
        ],
        data: discriminator("initialize"@)
            + borsh_keys(validators)
            + seq![threshold]
            + le_bytes(min_deposit as nat, 8)
            + le_bytes(min_withdrawal as nat, 8)
            + le_bytes(twos_complement64(governance_timelock_seconds), 8)
            + le_bytes(max_wrapped_supply as nat, 8),
    }
}

/// `initialize` — creates the bridge configuration and the validator set.
pub fn initialize_instruction(
    program_id: &Pubkey,
    authority: &Pubkey,
    validators: &[Pubkey],
    threshold: u8,
    min_deposit: u64,
    min_withdrawal: u64,
    governance_timelock_seconds: i64,
    max_wrapped_supply: u64,
) -> (ix: Instruction)
    requires
        can_start(program_id@),
    ensures
        ix@ == initialize_call(
            program_id@,
            authority@,
            validators@,
            threshold,
            min_deposit,
            min_withdrawal,
            governance_timelock_seconds,
            max_wrapped_supply,
        ),
{
    let mut data: Vec<u8> = start_data("initialize");
    push_keys(&mut data, validators);
    let ghost before = data@;
    data.push(threshold);
    assert(data@ =~= before + seq![threshold]);
    push_le(&mut data, min_deposit, 8);
    push_le(&mut data, min_withdrawal, 8);
    push_le(&mut data, to_bits64(governance_timelock_seconds), 8);
    push_le(&mut data, max_wrapped_supply, 8);
    let metas: Vec<AccountMeta> = vec![
        AccountMeta::new(*authority, true),
        AccountMeta::new(bridge_config_pda(program_id).0, false),
        AccountMeta::new(validator_set_pda(program_id).0, false),
        AccountMeta::new_readonly(*program_id, false),
        AccountMeta::new_readonly(program_data_address(program_id), false),
        AccountMeta::new_readonly(system_program_id(), false),
    ];
    let ix: Instruction = Instruction { program_id: *program_id, accounts: metas, data };
    assert(ix@.accounts =~= initialize_call(
        program_id@,
        authority@,
        validators@,
        threshold,
        min_deposit,
        min_withdrawal,
        governance_timelock_seconds,
        max_wrapped_supply,
    ).accounts);
    ix
}

/// The same, where the addresses it needs exist.
pub fn try_initialize_instruction(
    program_id: &Pubkey,
    authority: &Pubkey,
    validators: &[Pubkey],
    threshold: u8,
    min_deposit: u64,
    min_withdrawal: u64,
    governance_timelock_seconds: i64,
    max_wrapped_supply: u64,
) -> (result: Option<Instruction>)
    ensures
        match result {
            Some(ix) => can_start(program_id@)
                && ix@ == initialize_call(
                    program_id@,
                    authority@,
                    validators@,
                    threshold,
                    min_deposit,
                    min_withdrawal,
                    governance_timelock_seconds,
                    max_wrapped_supply,
                ),
            None => !(can_start(program_id@)),
        },
{
    if try_bridge_config_pda(program_id).is_some()
        && try_validator_set_pda(program_id).is_some()
        && find_program_data(program_id).is_some()
    {
        Some(initialize_instruction(
            program_id,
            authority,
            validators,
            threshold,
            min_deposit,
            min_withdrawal,
            governance_timelock_seconds,
            max_wrapped_supply,
        ))
    } else {
        None
    }
}

/// What `create_wrapped_mint` says.
pub open spec fn create_wrapped_mint_call(program: Seq<u8>, admin: Seq<u8>, mint: Seq<u8>) -> Call {
    Call {
        program,
        accounts: seq![
            written(admin, true),
            written(key_of(bridge_config_at(program)), false),
            read(key_of(mint_authority_at(program)), false),
            written(mint, true),
            read(TOKEN_PROGRAM_ID@, false),
            read(SYSTEM_PROGRAM_ID@, false),
        ],
        data: discriminator("create_wrapped_mint"@),
    }
}

/// `create_wrapped_mint` — one-time creation of the wrapped mint. The mint
/// account signs its own creation.
pub fn create_wrapped_mint_instruction(
    program_id: &Pubkey,
    admin: &Pubkey,
    wrapped_mint: &Pubkey,
) -> (ix: Instruction)
    requires
        can_create_mint(program_id@),
    ensures
        ix@ == create_wrapped_mint_call(program_id@, admin@, wrapped_mint@),
{
    let data: Vec<u8> = start_data("create_wrapped_mint");
    let metas: Vec<AccountMeta> = vec![
        AccountMeta::new(*admin, true),
        AccountMeta::new(bridge_config_pda(program_id).0, false),
        AccountMeta::new_readonly(mint_authority_pda(program_id).0, false),
        AccountMeta::new(*wrapped_mint, true),
        AccountMeta::new_readonly(token_program_id(), false),
        AccountMeta::new_readonly(system_program_id(), false),
    ];
    let ix: Instruction = Instruction { program_id: *program_id, accounts: metas, data };
    assert(ix@.accounts =~= create_wrapped_mint_call(program_id@, admin@, wrapped_mint@).accounts);
    ix
}

/// The same, where the addresses it needs exist.
pub fn try_create_wrapped_mint_instruction(
    program_id: &Pubkey,
    admin: &Pubkey,
    wrapped_mint: &Pubkey,
) -> (result: Option<Instruction>)
    ensures
        match result {
            Some(ix) => can_create_mint(program_id@)
                && ix@ == create_wrapped_mint_call(program_id@, admin@, wrapped_mint@),
            None => !(can_create_mint(program_id@)),
        },
{
    if try_bridge_config_pda(program_id).is_some() && try_mint_authority_pda(program_id).is_some() {
        Some(create_wrapped_mint_instruction(program_id, admin, wrapped_mint))
    } else {
        None
    }
}

/// What `transfer_admin` says.
pub open spec fn transfer_admin_call(program: Seq<u8>, admin: Seq<u8>, new_admin: Seq<u8>) -> Call {
    Call {
        program,
        accounts: seq![
            read(admin, true),
            written(key_of(bridge_config_at(program)), false),
        ],
        data: discriminator("transfer_admin"@) + new_admin,
    }
}

/// `transfer_admin` — step 1 of the two-step handover, signed by the outgoing
/// admin. Nothing changes until the named key signs `accept_admin`.
pub fn transfer_admin_instruction(
    program_id: &Pubkey,
    admin: &Pubkey,
    new_admin: &Pubkey,
) -> (ix: Instruction)
    requires
        bridge_config_at(program_id@) is Some,
    ensures
        ix@ == transfer_admin_call(program_id@, admin@, new_admin@),
{
    let mut data: Vec<u8> = start_data("transfer_admin");
    push_all(&mut data, &new_admin.bytes);
    let metas: Vec<AccountMeta> = vec![
        AccountMeta::new_readonly(*admin, true),
        AccountMeta::new(bridge_config_pda(program_id).0, false),
    ];
    let ix: Instruction = Instruction { program_id: *program_id, accounts: metas, data };
    assert(ix@.accounts =~= transfer_admin_call(program_id@, admin@, new_admin@).accounts);
    ix
}

/// The same, where the addresses it needs exist.
pub fn try_transfer_admin_instruction(
    program_id: &Pubkey,
    admin: &Pubkey,
    new_admin: &Pubkey,
) -> (result: Option<Instruction>)
    ensures
        match result {
            Some(ix) => bridge_config_at(program_id@) is Some
                && ix@ == transfer_admin_call(program_id@, admin@, new_admin@),
            None => !(bridge_config_at(program_id@) is Some),
        },
{
    if try_bridge_config_pda(program_id).is_some() {
        Some(transfer_admin_instruction(program_id, admin, new_admin))
    } else {
        None
    }
}

/// What `accept_admin` says.
pub open spec fn accept_admin_call(program: Seq<u8>, new_admin: Seq<u8>) -> Call {
    Call {
        program,
        accounts: seq![
            read(new_admin, true),
            written(key_of(bridge_config_at(program)), false),
        ],
        data: discriminator("accept_admin"@),
    }
}

/// `accept_admin` — step 2, signed by the incoming admin.
pub fn accept_admin_instruction(program_id: &Pubkey, new_admin: &Pubkey) -> (ix: Instruction)
    requires
        bridge_config_at(program_id@) is Some,
    ensures
        ix@ == accept_admin_call(program_id@, new_admin@),
{
    let data: Vec<u8> = start_data("accept_admin");
    let metas: Vec<AccountMeta> = vec![
        AccountMeta::new_readonly(*new_admin, true),
        AccountMeta::new(bridge_config_pda(program_id).0, false),
    ];
    let ix: Instruction = Instruction { program_id: *program_id, accounts: metas, data };
    assert(ix@.accounts =~= accept_admin_call(program_id@, new_admin@).accounts);
    ix
}

/// The same, where the addresses it needs exist.
pub fn try_accept_admin_instruction(
    program_id: &Pubkey,
    new_admin: &Pubkey,
) -> (result: Option<Instruction>)
    ensures
        match result {
            Some(ix) => bridge_config_at(program_id@) is Some
                && ix@ == accept_admin_call(program_id@, new_admin@),
            None => !(bridge_config_at(program_id@) is Some),
        },
{
    if try_bridge_config_pda(program_id).is_some() {
        Some(accept_admin_instruction(program_id, new_admin))
    } else {
        None
    }
}

/// What `create_token_metadata` says.
pub open spec fn create_token_metadata_call(
    program: Seq<u8>,
    admin: Seq<u8>,
    mint: Seq<u8>,
    uri: Seq<char>,
) -> Call {
    Call {
        program,
        accounts: seq![
            written(admin, true),
            read(key_of(bridge_config_at(program)), false),
            read(key_of(mint_authority_at(program)), false),
            read(mint, false),
            written(key_of(token_metadata_at(mint)), false),
            read(TOKEN_METADATA_PROGRAM_ID@, false),
            read(SYSTEM_PROGRAM_ID@, false),
            read(RENT_SYSVAR_ID@, false),
        ],
        data: discriminator("create_token_metadata"@) + borsh_string(uri),
    }
}

/// `create_token_metadata` — creates the wrapped mint's displayed metadata.
/// Idempotent on chain.
pub fn create_token_metadata_instruction(
    program_id: &Pubkey,
    admin: &Pubkey,
    wrapped_mint: &Pubkey,
    uri: &str,
) -> (ix: Instruction)
    requires
        can_describe(program_id@, wrapped_mint@),
    ensures
        ix@ == create_token_metadata_call(program_id@, admin@, wrapped_mint@, uri@),
{
    let mut data: Vec<u8> = start_data("create_token_metadata");
    push_string(&mut data, uri);
    let metas: Vec<AccountMeta> = vec![
        AccountMeta::new(*admin, true),
        AccountMeta::new_readonly(bridge_config_pda(program_id).0, false),
        AccountMeta::new_readonly(mint_authority_pda(program_id).0, false),
        AccountMeta::new_readonly(*wrapped_mint, false),
        AccountMeta::new(token_metadata_pda(wrapped_mint).0, false),
        AccountMeta::new_readonly(Pubkey { bytes: TOKEN_METADATA_PROGRAM_ID }, false),
        AccountMeta::new_readonly(system_program_id(), false),
        AccountMeta::new_readonly(rent_sysvar_id(), false),
    ];
    let ix: Instruction = Instruction { program_id: *program_id, accounts: metas, data };
    assert(ix@.accounts =~= create_token_metadata_call(
        program_id@,
        admin@,
        wrapped_mint@,
        uri@,
    ).accounts);
    ix
}

/// The same, where the addresses it needs exist.
pub fn try_create_token_metadata_instruction(
    program_id: &Pubkey,
    admin: &Pubkey,
    wrapped_mint: &Pubkey,
    uri: &str,
) -> (result: Option<Instruction>)
    ensures
        match result {
            Some(ix) => can_describe(program_id@, wrapped_mint@)
                && ix@ == create_token_metadata_call(program_id@, admin@, wrapped_mint@, uri@),
            None => !(can_describe(program_id@, wrapped_mint@)),
        },
{
    if try_bridge_config_pda(program_id).is_some()
        && try_mint_authority_pda(program_id).is_some()
        && try_token_metadata_pda(wrapped_mint).is_some()
    {
        Some(create_token_metadata_instruction(program_id, admin, wrapped_mint, uri))
    } else {
        None
    }
}

/// What `update_token_metadata` says.
pub open spec fn update_token_metadata_call(
    program: Seq<u8>,
    admin: Seq<u8>,
    mint: Seq<u8>,
    name: Seq<char>,
    symbol: Seq<char>,
    uri: Seq<char>,
) -> Call {
    Call {
        program,
        accounts: seq![
            read(admin, true),
            read(key_of(bridge_config_at(program)), false),
            read(key_of(mint_authority_at(program)), false),
            written(key_of(token_metadata_at(mint)), false),
            read(TOKEN_METADATA_PROGRAM_ID@, false),
        ],
        data: discriminator("update_token_metadata"@)
            + borsh_string(name)
            + borsh_string(symbol)
            + borsh_string(uri),
    }
}

/// `update_token_metadata` — changes the displayed name, symbol and URI. It
/// takes no mint account, so it cannot alter the mint.
pub fn update_token_metadata_instruction(
    program_id: &Pubkey,
    admin: &Pubkey,
    wrapped_mint: &Pubkey,
    name: &str,
    symbol: &str,
    uri: &str,
) -> (ix: Instruction)
    requires
        can_describe(program_id@, wrapped_mint@),
    ensures
        ix@ == update_token_metadata_call(program_id@, admin@, wrapped_mint@, name@, symbol@, uri@),
{
    let mut data: Vec<u8> = start_data("update_token_metadata");
    push_string(&mut data, name);
    push_string(&mut data, symbol);
    push_string(&mut data, uri);
    let metas: Vec<AccountMeta> = vec![
        AccountMeta::new_readonly(*admin, true),
        AccountMeta::new_readonly(bridge_config_pda(program_id).0, false),
        AccountMeta::new_readonly(mint_authority_pda(program_id).0, false),
        AccountMeta::new(token_metadata_pda(wrapped_mint).0, false),
        AccountMeta::new_readonly(Pubkey { bytes: TOKEN_METADATA_PROGRAM_ID }, false),
    ];
    let ix: Instruction = Instruction { program_id: *program_id, accounts: metas, data };
    assert(ix@.accounts =~= update_token_metadata_call(
        program_id@,
        admin@,
        wrapped_mint@,
        name@,
        symbol@,
        uri@,
    ).accounts);
    ix
}

/// The same, where the addresses it needs exist.
pub fn try_update_token_metadata_instruction(
    program_id: &Pubkey,
    admin: &Pubkey,
    wrapped_mint: &Pubkey,
    name: &str,
    symbol: &str,
    uri: &str,
) -> (result: Option<Instruction>)
    ensures
        match result {
            Some(ix) => can_describe(program_id@, wrapped_mint@)
                && ix@ == update_token_metadata_call(
                    program_id@,
                    admin@,
                    wrapped_mint@,
                    name@,
                    symbol@,
                    uri@,
                ),
            None => !(can_describe(program_id@, wrapped_mint@)),
        },
{
    if try_bridge_config_pda(program_id).is_some()
        && try_mint_authority_pda(program_id).is_some()
        && try_token_metadata_pda(wrapped_mint).is_some()
    {
        Some(update_token_metadata_instruction(program_id, admin, wrapped_mint, name, symbol, uri))
    } else {
        None
    }
}

/// A rotation writes the validator set and reads the configuration; a cap raise
/// is the other way round. Everything else about the two executions agrees.
pub proof fn executions_have_mirrored_writability(program: Seq<u8>, executor: Seq<u8>)
    ensures
        ({
            let rotation = execute_rotation_call(program, executor).accounts;
            let raise = execute_cap_raise_call(program, executor).accounts;
            &&& rotation.len() == raise.len() == 4
            &&& forall|i: int|
                0 <= i < 4 ==> (#[trigger] rotation[i]).key == raise[i].key && rotation[i].signer
                    == raise[i].signer
            &&& rotation[1] == read(key_of(bridge_config_at(program)), false)
            &&& raise[1] == written(key_of(bridge_config_at(program)), false)
            &&& rotation[2] == written(key_of(validator_set_at(program)), false)
            &&& raise[2] == read(key_of(validator_set_at(program)), false)
            &&& rotation[0] == raise[0]
            &&& rotation[3] == raise[3]
        }),
{
}

/// Both governance proposals take the same accounts.
pub proof fn proposals_take_the_same_accounts(
    program: Seq<u8>,
    proposer: Seq<u8>,
    validators: Seq<Pubkey>,
    threshold: u8,
    new_max: u64,
)
    ensures
        propose_rotation_call(program, proposer, validators, threshold).accounts
            == propose_cap_raise_call(program, proposer, new_max).accounts,
{
}

/// The outgoing admin alone signs the nomination, and the incoming admin alone
/// signs the acceptance.
pub proof fn the_handover_is_signed_by_each_side(
    program: Seq<u8>,
    admin: Seq<u8>,
    new_admin: Seq<u8>,
)
    ensures
        ({
            let nomination = transfer_admin_call(program, admin, new_admin).accounts;
            let acceptance = accept_admin_call(program, new_admin).accounts;
            &&& forall|i: int|
                0 <= i < nomination.len() ==> (#[trigger] nomination[i]).signer == (i == 0)
            &&& forall|i: int|
                0 <= i < acceptance.len() ==> (#[trigger] acceptance[i]).signer == (i == 0)
            &&& nomination[0].key == admin
            &&& acceptance[0].key == new_admin
        }),
{
}

/// An update of the displayed metadata writes the metadata account and nothing
/// else, and it is the account that the creation wrote.
pub proof fn an_update_writes_only_the_metadata_account(
    program: Seq<u8>,
    admin: Seq<u8>,
    mint: Seq<u8>,
    name: Seq<char>,
    symbol: Seq<char>,
    uri: Seq<char>,
    created_uri: Seq<char>,
)
    ensures
        ({
            let update = update_token_metadata_call(program, admin, mint, name, symbol, uri).accounts;
            let create = create_token_metadata_call(program, admin, mint, created_uri).accounts;
            &&& forall|i: int| 0 <= i < update.len() ==> (#[trigger] update[i]).writable == (i == 3)
            &&& update[3].key == key_of(token_metadata_at(mint))
            &&& create[4] == update[3]
        }),
{
}

proof fn lemma_key_bytes_len(keys: Seq<Pubkey>)
    ensures
        key_bytes(keys).len() == 32 * keys.len(),
    decreases keys.len(),
{
    if keys.len() > 0 {
        lemma_key_bytes_len(keys.drop_last());
    }
}

proof fn lemma_key_bytes_injective(a: Seq<Pubkey>, b: Seq<Pubkey>)
    requires
        a.len() == b.len(),
        key_bytes(a) == key_bytes(b),
    ensures
        forall|i: int| 0 <= i < a.len() ==> (#[trigger] a[i])@ == b[i]@,
    decreases a.len(),
{
    if a.len() > 0 {
        lemma_key_bytes_len(a.drop_last());
        lemma_key_bytes_len(b.drop_last());
        lemma_split_equal(key_bytes(a.drop_last()), a.last()@, key_bytes(b.drop_last()), b.last()@);
        lemma_key_bytes_injective(a.drop_last(), b.drop_last());
        assert forall|i: int| 0 <= i < a.len() implies (#[trigger] a[i])@ == b[i]@ by {
            if i < a.len() - 1 {
                assert(a.drop_last()[i] == a[i]);
                assert(b.drop_last()[i] == b[i]);
            }
        }
    }
}

/// Equal lists of keys, followed by anything, have equal encodings only where
/// they hold the same keys in the same order.
proof fn lemma_borsh_keys_injective(
    a: Seq<Pubkey>,
    rest_a: Seq<u8>,
    b: Seq<Pubkey>,
    rest_b: Seq<u8>,
)
    requires
        a.len() < 0x1_0000_0000,
        b.len() < 0x1_0000_0000,
        borsh_keys(a) + rest_a == borsh_keys(b) + rest_b,
    ensures
        a.len() == b.len(),
        forall|i: int| 0 <= i < a.len() ==> (#[trigger] a[i])@ == b[i]@,
        rest_a == rest_b,
{
    lemma_pow256();
    lemma_le_bytes_len(a.len(), 4);
    lemma_le_bytes_len(b.len(), 4);
    assert(borsh_keys(a) + rest_a =~= le_bytes(a.len(), 4) + (key_bytes(a) + rest_a));
    assert(borsh_keys(b) + rest_b =~= le_bytes(b.len(), 4) + (key_bytes(b) + rest_b));
    lemma_split_equal(
        le_bytes(a.len(), 4),
        key_bytes(a) + rest_a,
        le_bytes(b.len(), 4),
        key_bytes(b) + rest_b,
    );
    lemma_le_bytes_injective(a.len(), b.len(), 4);
    lemma_key_bytes_len(a);
    lemma_key_bytes_len(b);
    lemma_split_equal(key_bytes(a), rest_a, key_bytes(b), rest_b);
    lemma_key_bytes_injective(a, b);
}

/// Validator order reaches the wire: two rotation proposals with the same data
/// name the same validators in the same order, and the same threshold. The
/// order fixes each validator's bitmask index, so it is never sorted away.
pub proof fn a_rotation_keeps_the_validator_order(
    program: Seq<u8>,
    proposer: Seq<u8>,
    validators_a: Seq<Pubkey>,
    threshold_a: u8,
    validators_b: Seq<Pubkey>,
    threshold_b: u8,
)
    requires
        validators_a.len() < 0x1_0000_0000,
        validators_b.len() < 0x1_0000_0000,
        propose_rotation_call(program, proposer, validators_a, threshold_a).data
            == propose_rotation_call(program, proposer, validators_b, threshold_b).data,
    ensures
        validators_a.len() == validators_b.len(),
        forall|i: int|
            0 <= i < validators_a.len() ==> (#[trigger] validators_a[i])@ == validators_b[i]@,
        threshold_a == threshold_b,
{
    let head = discriminator("propose_validator_rotation"@);
    let a = borsh_keys(validators_a) + seq![threshold_a];
    let b = borsh_keys(validators_b) + seq![threshold_b];
    assert(propose_rotation_call(program, proposer, validators_a, threshold_a).data =~= head + a);
    assert(propose_rotation_call(program, proposer, validators_b, threshold_b).data =~= head + b);
    lemma_split_equal(head, a, head, b);
    lemma_borsh_keys_injective(
        validators_a,
        seq![threshold_a],
        validators_b,
        seq![threshold_b],
    );
    assert(seq![threshold_a][0] == seq![threshold_b][0]);
}

/// Two `mint_wrapped` calls with the same data claim the same deposit, for the
/// same amount, under the same epoch.
pub proof fn mint_data_commits_to_its_arguments(
    txid_a: Seq<u8>,
    vout_a: u32,
    amount_a: u64,
    epoch_a: u64,
    txid_b: Seq<u8>,
    vout_b: u32,
    amount_b: u64,
    epoch_b: u64,
)
    requires
        txid_a.len() == 32,
        txid_b.len() == 32,
        mint_wrapped_data(txid_a, vout_a, amount_a, epoch_a) == mint_wrapped_data(
            txid_b,
            vout_b,
            amount_b,
            epoch_b,
        ),
    ensures
        txid_a == txid_b,
        vout_a == vout_b,
        amount_a == amount_b,
        epoch_a == epoch_b,
{
    lemma_pow256();
    let head = discriminator("mint_wrapped"@);
    let va = le_bytes(vout_a as nat, 4);
    let vb = le_bytes(vout_b as nat, 4);
    let ma = le_bytes(amount_a as nat, 8);
    let mb = le_bytes(amount_b as nat, 8);
    let ea = le_bytes(epoch_a as nat, 8);
    let eb = le_bytes(epoch_b as nat, 8);
    lemma_le_bytes_len(vout_a as nat, 4);
    lemma_le_bytes_len(vout_b as nat, 4);
    lemma_le_bytes_len(amount_a as nat, 8);
    lemma_le_bytes_len(amount_b as nat, 8);
    lemma_le_bytes_len(epoch_a as nat, 8);
    lemma_le_bytes_len(epoch_b as nat, 8);
    lemma_split_equal(head + txid_a + va + ma, ea, head + txid_b + vb + mb, eb);
    lemma_split_equal(head + txid_a + va, ma, head + txid_b + vb, mb);
    lemma_split_equal(head + txid_a, va, head + txid_b, vb);
    lemma_split_equal(head, txid_a, head, txid_b);
    lemma_le_bytes_injective(vout_a as nat, vout_b as nat, 4);
    lemma_le_bytes_injective(amount_a as nat, amount_b as nat, 8);
    lemma_le_bytes_injective(epoch_a as nat, epoch_b as nat, 8);
}

/// Two `complete_withdrawal` calls with the same data complete the same
/// withdrawal with the same payout, under the same epoch.
pub proof fn completion_data_commits_to_its_arguments(
    index_a: u64,
    txid_a: Seq<u8>,
    height_a: u64,
    epoch_a: u64,
    index_b: u64,
    txid_b: Seq<u8>,
    height_b: u64,
    epoch_b: u64,
)
    requires
        txid_a.len() == 32,
        txid_b.len() == 32,
        complete_withdrawal_data(index_a, txid_a, height_a, epoch_a) == complete_withdrawal_data(
            index_b,
            txid_b,
            height_b,
            epoch_b,
        ),
    ensures
        index_a == index_b,
        txid_a == txid_b,
        height_a == height_b,
        epoch_a == epoch_b,
{
    lemma_pow256();
    let head = discriminator("complete_withdrawal"@);
    let ia = le_bytes(index_a as nat, 8);
    let ib = le_bytes(index_b as nat, 8);
    let ha = le_bytes(height_a as nat, 8);
    let hb = le_bytes(height_b as nat, 8);
    let ea = le_bytes(epoch_a as nat, 8);
    let eb = le_bytes(epoch_b as nat, 8);
    lemma_le_bytes_len(index_a as nat, 8);
    lemma_le_bytes_len(index_b as nat, 8);
    lemma_le_bytes_len(height_a as nat, 8);
    lemma_le_bytes_len(height_b as nat, 8);
    lemma_le_bytes_len(epoch_a as nat, 8);
    lemma_le_bytes_len(epoch_b as nat, 8);
    lemma_split_equal(head + ia + txid_a + ha, ea, head + ib + txid_b + hb, eb);
    lemma_split_equal(head + ia + txid_a, ha, head + ib + txid_b, hb);
    lemma_split_equal(head + ia, txid_a, head + ib, txid_b);
    lemma_split_equal(head, ia, head, ib);
    lemma_le_bytes_injective(index_a as nat, index_b as nat, 8);
    lemma_le_bytes_injective(height_a as nat, height_b as nat, 8);
    lemma_le_bytes_injective(epoch_a as nat, epoch_b as nat, 8);
}

/// An integer behind a head is read back from behind it.
proof fn lemma_value_behind(head: Seq<u8>, value: nat, width: nat, tail: Seq<u8>)
    requires
        value < pow256(width),
    ensures
        ({
            let data = head + le_bytes(value, width) + tail;
            let at = head.len() as int;
            &&& data.len() == at + width + tail.len()
            &&& le_value(data.subrange(at, at + width)) == value
        }),
{
    let data = head + le_bytes(value, width) + tail;
    let at = head.len() as int;
    lemma_le_bytes_len(value, width);
    lemma_le_value_of_le_bytes(value, width);
    assert(data.subrange(at, at + width) =~= le_bytes(value, width));
}

/// A discriminator is the first eight bytes of the hash of the name in its
/// namespace.
pub proof fn a_discriminator_is_eight_bytes_of_the_hash(name: Seq<char>, i: int)
    ensures
        discriminator(name).len() == 8,
        0 <= i < 8 ==> discriminator(name)[i] == sha256(encode_utf8("global:"@ + name))[i],
{
}

/// A string on the wire is its length in bytes and then its bytes.
pub proof fn a_string_is_written_behind_its_length(text: Seq<char>)
    requires
        encode_utf8(text).len() < 0x1_0000_0000,
    ensures
        borsh_string(text).len() == 4 + encode_utf8(text).len(),
        le_value(borsh_string(text).take(4)) == encode_utf8(text).len(),
        borsh_string(text).skip(4) == encode_utf8(text),
{
    lemma_pow256();
    lemma_value_behind(Seq::empty(), encode_utf8(text).len(), 4, encode_utf8(text));
    lemma_le_bytes_len(encode_utf8(text).len(), 4);
    assert(Seq::<u8>::empty() + le_bytes(encode_utf8(text).len(), 4) + encode_utf8(text)
        =~= borsh_string(text));
    assert(borsh_string(text).subrange(0, 4) =~= borsh_string(text).take(4));
    assert(borsh_string(text).skip(4) =~= encode_utf8(text));
}

proof fn lemma_key_bytes_at(keys: Seq<Pubkey>, i: int)
    requires
        0 <= i < keys.len(),
    ensures
        key_bytes(keys).len() == 32 * keys.len(),
        key_bytes(keys).subrange(32 * i, 32 * i + 32) == keys[i]@,
    decreases keys.len(),
{
    lemma_key_bytes_len(keys);
    let front = keys.drop_last();
    lemma_key_bytes_len(front);
    if i < front.len() {
        lemma_key_bytes_at(front, i);
        assert(key_bytes(keys).subrange(32 * i, 32 * i + 32) =~= key_bytes(front).subrange(
            32 * i,
            32 * i + 32,
        ));
    } else {
        assert(key_bytes(keys).subrange(32 * i, 32 * i + 32) =~= keys[i]@);
    }
}

/// A list of keys on the wire is its length and then every key, in order.
pub proof fn keys_are_written_behind_their_number(keys: Seq<Pubkey>, i: int)
    requires
        keys.len() < 0x1_0000_0000,
    ensures
        borsh_keys(keys).len() == 4 + 32 * keys.len(),
        le_value(borsh_keys(keys).take(4)) == keys.len(),
        0 <= i < keys.len() ==> borsh_keys(keys).subrange(4 + 32 * i, 36 + 32 * i) == keys[i]@,
{
    lemma_pow256();
    lemma_key_bytes_len(keys);
    lemma_value_behind(Seq::empty(), keys.len(), 4, key_bytes(keys));
    lemma_le_bytes_len(keys.len(), 4);
    assert(Seq::<u8>::empty() + le_bytes(keys.len(), 4) + key_bytes(keys) =~= borsh_keys(keys));
    assert(borsh_keys(keys).subrange(0, 4) =~= borsh_keys(keys).take(4));
    if 0 <= i < keys.len() {
        lemma_key_bytes_at(keys, i);
        assert(borsh_keys(keys).subrange(4 + 32 * i, 36 + 32 * i) =~= key_bytes(keys).subrange(
            32 * i,
            32 * i + 32,
        ));
    }
}

/// The admin's calls are signed by the admin alone and write the configuration
/// alone. Each names itself and carries its one argument, as it is given.
pub proof fn the_admins_calls_carry_their_argument(
    program: Seq<u8>,
    admin: Seq<u8>,
    paused: bool,
    new_max: u64,
    new_admin: Seq<u8>,
)
    ensures
        ({
            let pause = set_paused_call(program, admin, paused);
            let lower = lower_supply_cap_call(program, admin, new_max);
            let hand = transfer_admin_call(program, admin, new_admin);
            let accept = accept_admin_call(program, admin);
            let config = key_of(bridge_config_at(program));
            &&& pause.data.take(8) == discriminator("set_paused"@)
            &&& pause.data.len() == 9
            &&& pause.data[8] == 1 <==> paused
            &&& pause.data[8] == 0 <==> !paused
            &&& lower.data.take(8) == discriminator("lower_wrapped_supply_cap"@)
            &&& lower.data.len() == 16
            &&& le_value(lower.data.subrange(8, 16)) == new_max
            &&& hand.data.take(8) == discriminator("transfer_admin"@)
            &&& hand.data.skip(8) == new_admin
            &&& accept.data == discriminator("accept_admin"@)
            &&& pause.accounts == lower.accounts
            &&& pause.accounts == hand.accounts
            &&& pause.accounts == accept.accounts
            &&& pause.accounts.len() == 2
            &&& pause.accounts[0].key == admin && pause.accounts[0].signer
                && !pause.accounts[0].writable
            &&& pause.accounts[1].key == config && !pause.accounts[1].signer
                && pause.accounts[1].writable
            &&& pause.program == program && lower.program == program && hand.program == program
                && accept.program == program
        }),
{
    lemma_pow256();
    let pause = set_paused_call(program, admin, paused);
    let lower = lower_supply_cap_call(program, admin, new_max);
    let hand = transfer_admin_call(program, admin, new_admin);
    assert(pause.data.take(8) =~= discriminator("set_paused"@));
    let name = discriminator("lower_wrapped_supply_cap"@);
    lemma_value_behind(name, new_max as nat, 8, Seq::empty());
    assert(name + le_bytes(new_max as nat, 8) + Seq::empty() =~= lower.data);
    assert(lower.data.take(8) =~= name);
    assert(hand.data.take(8) =~= discriminator("transfer_admin"@));
    assert(hand.data.skip(8) =~= new_admin);
}

/// A governance call is signed by whoever pays for it and by nobody else, and
/// writes the payer and the pending action. Only an execution writes what was
/// proposed: a rotation the validators, a raise the configuration. A proposal
/// carries what is proposed, as it is given.
pub proof fn the_governance_calls_carry_their_proposal(
    program: Seq<u8>,
    payer: Seq<u8>,
    validators: Seq<Pubkey>,
    threshold: u8,
    new_max: u64,
    i: int,
)
    requires
        validators.len() < 0x1_0000_0000,
    ensures
        ({
            let rotate = propose_rotation_call(program, payer, validators, threshold);
            let raise = propose_cap_raise_call(program, payer, new_max);
            let cancel = cancel_rotation_call(program, payer);
            let rotated = execute_rotation_call(program, payer);
            let raised = execute_cap_raise_call(program, payer);
            let n = validators.len() as int;
            &&& rotate.data.take(8) == discriminator("propose_validator_rotation"@)
            &&& rotate.data.len() == 13 + 32 * n
            &&& le_value(rotate.data.subrange(8, 12)) == n
            &&& 0 <= i < n ==> rotate.data.subrange(12 + 32 * i, 44 + 32 * i) == validators[i]@
            &&& rotate.data[12 + 32 * n] == threshold
            &&& raise.data.take(8) == discriminator("propose_wrapped_supply_cap_raise"@)
            &&& raise.data.len() == 16
            &&& le_value(raise.data.subrange(8, 16)) == new_max
            &&& cancel.data == discriminator("cancel_validator_rotation"@)
            &&& rotated.data == discriminator("execute_validator_rotation"@)
            &&& raised.data == discriminator("execute_wrapped_supply_cap_raise"@)
            &&& rotate.accounts.len() == 6 && raise.accounts == rotate.accounts
                && cancel.accounts == rotate.accounts.take(5) && rotated.accounts.len() == 4
                && raised.accounts.len() == 4
            &&& rotate.accounts[0].key == payer && rotated.accounts[0].key == payer
                && raised.accounts[0].key == payer
            &&& rotate.accounts[1].key == key_of(bridge_config_at(program))
                && rotated.accounts[1].key == key_of(bridge_config_at(program))
                && raised.accounts[1].key == key_of(bridge_config_at(program))
            &&& rotate.accounts[2].key == key_of(validator_set_at(program))
                && rotated.accounts[2].key == key_of(validator_set_at(program))
                && raised.accounts[2].key == key_of(validator_set_at(program))
            &&& rotate.accounts[3].key == key_of(governance_action_at(program))
                && rotated.accounts[3].key == key_of(governance_action_at(program))
                && raised.accounts[3].key == key_of(governance_action_at(program))
            &&& 0 <= i < 6 ==> (rotate.accounts[i].signer <==> i == 0) && (
            rotate.accounts[i].writable <==> i == 0 || i == 3)
            &&& 0 <= i < 4 ==> (rotated.accounts[i].signer <==> i == 0) && (
            rotated.accounts[i].writable <==> i != 1)
            &&& 0 <= i < 4 ==> (raised.accounts[i].signer <==> i == 0) && (
            raised.accounts[i].writable <==> i != 2)
            &&& rotate.program == program && raise.program == program && cancel.program == program
                && rotated.program == program && raised.program == program
        }),
{
    lemma_pow256();
    let rotate = propose_rotation_call(program, payer, validators, threshold);
    let raise = propose_cap_raise_call(program, payer, new_max);
    let cancel = cancel_rotation_call(program, payer);
    let n = validators.len() as int;
    let keys = borsh_keys(validators);
    keys_are_written_behind_their_number(validators, i);
    assert(rotate.data.take(8) =~= discriminator("propose_validator_rotation"@));
    assert(rotate.data.subrange(8, 12) =~= keys.take(4));
    if 0 <= i < n {
        assert(rotate.data.subrange(12 + 32 * i, 44 + 32 * i) =~= keys.subrange(
            4 + 32 * i,
            36 + 32 * i,
        ));
    }
    let name = discriminator("propose_wrapped_supply_cap_raise"@);
    lemma_value_behind(name, new_max as nat, 8, Seq::empty());
    assert(name + le_bytes(new_max as nat, 8) + Seq::empty() =~= raise.data);
    assert(raise.data.take(8) =~= name);
    assert(cancel.accounts =~= rotate.accounts.take(5));
}

/// The call that stands the bridge up carries the validators, the threshold and
/// the four bounds, each in its own place and as it is given. Whoever stands it
/// up signs and pays, and the two accounts that are created are written.
pub proof fn an_initialization_carries_every_decision(
    program: Seq<u8>,
    authority: Seq<u8>,
    validators: Seq<Pubkey>,
    threshold: u8,
    min_deposit: u64,
    min_withdrawal: u64,
    timelock: i64,
    max_supply: u64,
    i: int,
)
    requires
        validators.len() < 0x1_0000_0000,
    ensures
        ({
            let call = initialize_call(
                program,
                authority,
                validators,
                threshold,
                min_deposit,
                min_withdrawal,
                timelock,
                max_supply,
            );
            let n = validators.len() as int;
            let at = 13 + 32 * n;
            &&& call.program == program
            &&& call.data.len() == at + 32
            &&& call.data.take(8) == discriminator("initialize"@)
            &&& le_value(call.data.subrange(8, 12)) == n
            &&& 0 <= i < n ==> call.data.subrange(12 + 32 * i, 44 + 32 * i) == validators[i]@
            &&& call.data[at - 1] == threshold
            &&& le_value(call.data.subrange(at, at + 8)) == min_deposit
            &&& le_value(call.data.subrange(at + 8, at + 16)) == min_withdrawal
            &&& from_twos_complement64(le_value(call.data.subrange(at + 16, at + 24))) == timelock
            &&& le_value(call.data.subrange(at + 24, at + 32)) == max_supply
            &&& call.accounts.len() == 6
            &&& call.accounts[0].key == authority
            &&& call.accounts[1].key == key_of(bridge_config_at(program))
            &&& call.accounts[2].key == key_of(validator_set_at(program))
            &&& call.accounts[3].key == program
            &&& call.accounts[4].key == key_of(program_data_at(program))
            &&& 0 <= i < 6 ==> (call.accounts[i].signer <==> i == 0) && (call.accounts[i].writable
                <==> i <= 2)
        }),
{
    lemma_pow256();
    let call = initialize_call(
        program,
        authority,
        validators,
        threshold,
        min_deposit,
        min_withdrawal,
        timelock,
        max_supply,
    );
    let n = validators.len() as int;
    let at = 13 + 32 * n;
    let keys = borsh_keys(validators);
    let name = discriminator("initialize"@);
    let head = name + keys + seq![threshold];
    let d = le_bytes(min_deposit as nat, 8);
    let w = le_bytes(min_withdrawal as nat, 8);
    let t = le_bytes(twos_complement64(timelock), 8);
    let m = le_bytes(max_supply as nat, 8);
    keys_are_written_behind_their_number(validators, i);
    lemma_le_bytes_len(min_deposit as nat, 8);
    lemma_le_bytes_len(min_withdrawal as nat, 8);
    lemma_le_bytes_len(twos_complement64(timelock), 8);
    lemma_le_bytes_len(max_supply as nat, 8);
    assert(call.data == head + d + w + t + m);
    lemma_value_behind(head, min_deposit as nat, 8, w + t + m);
    assert(head + d + (w + t + m) =~= call.data);
    lemma_value_behind(head + d, min_withdrawal as nat, 8, t + m);
    assert(head + d + w + (t + m) =~= call.data);
    lemma_value_behind(head + d + w, twos_complement64(timelock), 8, m);
    lemma_value_behind(head + d + w + t, max_supply as nat, 8, Seq::empty());
    assert(head + d + w + t + m + Seq::empty() =~= call.data);
    assert(call.data.take(8) =~= name);
    assert(call.data.subrange(8, 12) =~= keys.take(4));
    if 0 <= i < n {
        assert(call.data.subrange(12 + 32 * i, 44 + 32 * i) =~= keys.subrange(
            4 + 32 * i,
            36 + 32 * i,
        ));
    }
}

/// What a mint carries is the deposit, the amount and the epoch, each in its own
/// place.
pub proof fn a_mint_carries_the_deposit(txid: Seq<u8>, vout: u32, amount: u64, epoch: u64)
    requires
        txid.len() == 32,
    ensures
        ({
            let data = mint_wrapped_data(txid, vout, amount, epoch);
            &&& data.len() == 60
            &&& data.take(8) == discriminator("mint_wrapped"@)
            &&& data.subrange(8, 40) == txid
            &&& le_value(data.subrange(40, 44)) == vout
            &&& le_value(data.subrange(44, 52)) == amount
            &&& le_value(data.subrange(52, 60)) == epoch
        }),
{
    lemma_pow256();
    let data = mint_wrapped_data(txid, vout, amount, epoch);
    let head = discriminator("mint_wrapped"@) + txid;
    let v = le_bytes(vout as nat, 4);
    let a = le_bytes(amount as nat, 8);
    let e = le_bytes(epoch as nat, 8);
    lemma_le_bytes_len(vout as nat, 4);
    lemma_le_bytes_len(amount as nat, 8);
    lemma_le_bytes_len(epoch as nat, 8);
    lemma_value_behind(head, vout as nat, 4, a + e);
    assert(head + v + (a + e) =~= data);
    lemma_value_behind(head + v, amount as nat, 8, e);
    lemma_value_behind(head + v + a, epoch as nat, 8, Seq::empty());
    assert(head + v + a + e + Seq::empty() =~= data);
    assert(data.take(8) =~= discriminator("mint_wrapped"@));
    assert(data.subrange(8, 40) =~= txid);
}

/// What a completion carries is the withdrawal, the payout, its height and the
/// epoch, each in its own place.
pub proof fn a_completion_carries_the_payout(index: u64, txid: Seq<u8>, height: u64, epoch: u64)
    requires
        txid.len() == 32,
    ensures
        ({
            let data = complete_withdrawal_data(index, txid, height, epoch);
            &&& data.len() == 64
            &&& data.take(8) == discriminator("complete_withdrawal"@)
            &&& le_value(data.subrange(8, 16)) == index
            &&& data.subrange(16, 48) == txid
            &&& le_value(data.subrange(48, 56)) == height
            &&& le_value(data.subrange(56, 64)) == epoch
        }),
{
    lemma_pow256();
    let data = complete_withdrawal_data(index, txid, height, epoch);
    let head = discriminator("complete_withdrawal"@);
    let n = le_bytes(index as nat, 8);
    let h = le_bytes(height as nat, 8);
    let e = le_bytes(epoch as nat, 8);
    lemma_le_bytes_len(index as nat, 8);
    lemma_le_bytes_len(height as nat, 8);
    lemma_le_bytes_len(epoch as nat, 8);
    lemma_value_behind(head, index as nat, 8, txid + h + e);
    assert(head + n + (txid + h + e) =~= data);
    lemma_value_behind(head + n + txid, height as nat, 8, e);
    lemma_value_behind(head + n + txid + h, epoch as nat, 8, Seq::empty());
    assert(head + n + txid + h + e + Seq::empty() =~= data);
    assert(data.take(8) =~= head);
    assert(data.subrange(16, 48) =~= txid);
}

/// The mint signs its own creation, together with the admin, who pays. The
/// configuration is written, because it is what remembers the mint.
pub proof fn a_mint_is_created_with_its_own_signature(
    program: Seq<u8>,
    admin: Seq<u8>,
    mint: Seq<u8>,
    i: int,
)
    ensures
        ({
            let call = create_wrapped_mint_call(program, admin, mint);
            &&& call.program == program
            &&& call.data == discriminator("create_wrapped_mint"@)
            &&& call.accounts.len() == 6
            &&& call.accounts[0].key == admin
            &&& call.accounts[1].key == key_of(bridge_config_at(program))
            &&& call.accounts[2].key == key_of(mint_authority_at(program))
            &&& call.accounts[3].key == mint
            &&& 0 <= i < 6 ==> (call.accounts[i].signer <==> i == 0 || i == 3) && (
            call.accounts[i].writable <==> i == 0 || i == 1 || i == 3)
        }),
{
}

/// The metadata calls carry the texts as they are given and nothing else. The
/// admin alone signs, and of the two only the creation has the admin pay.
pub proof fn the_metadata_calls_carry_their_texts(
    program: Seq<u8>,
    admin: Seq<u8>,
    mint: Seq<u8>,
    name: Seq<char>,
    symbol: Seq<char>,
    uri: Seq<char>,
    i: int,
)
    ensures
        ({
            let create = create_token_metadata_call(program, admin, mint, uri);
            let update = update_token_metadata_call(program, admin, mint, name, symbol, uri);
            &&& create.program == program && update.program == program
            &&& create.data.take(8) == discriminator("create_token_metadata"@)
            &&& create.data.skip(8) == borsh_string(uri)
            &&& update.data.take(8) == discriminator("update_token_metadata"@)
            &&& update.data.skip(8) == borsh_string(name) + borsh_string(symbol) + borsh_string(uri)
            &&& create.accounts.len() == 8
            &&& update.accounts.len() == 5
            &&& create.accounts[0].key == admin && update.accounts[0].key == admin
            &&& create.accounts[1].key == key_of(bridge_config_at(program))
                && update.accounts[1].key == key_of(bridge_config_at(program))
            &&& create.accounts[2].key == key_of(mint_authority_at(program))
                && update.accounts[2].key == key_of(mint_authority_at(program))
            &&& create.accounts[3].key == mint
            &&& create.accounts[4].key == key_of(token_metadata_at(mint)) && update.accounts[3].key
                == key_of(token_metadata_at(mint))
            &&& 0 <= i < 8 ==> (create.accounts[i].signer <==> i == 0) && (
            create.accounts[i].writable <==> i == 0 || i == 4)
            &&& 0 <= i < 5 ==> (update.accounts[i].signer <==> i == 0) && (
            update.accounts[i].writable <==> i == 3)
        }),
{
    let create = create_token_metadata_call(program, admin, mint, uri);
    let update = update_token_metadata_call(program, admin, mint, name, symbol, uri);
    assert(create.data.take(8) =~= discriminator("create_token_metadata"@));
    assert(create.data.skip(8) =~= borsh_string(uri));
    assert(update.data.take(8) =~= discriminator("update_token_metadata"@));
    assert(update.data.skip(8) =~= borsh_string(name) + borsh_string(symbol) + borsh_string(uri));
}

/// A mint writes the submitter, the claim, the mint and the recipient's account
/// and no other, and the submitter alone signs it.
pub proof fn a_mint_writes_only_the_claim_and_the_coins(
    program_id: Pubkey,
    accounts: MintWrappedAccounts,
    txid: [u8; 32],
    vout: u32,
    amount: u64,
    epoch: u64,
    ix: Instruction,
    i: int,
)
    requires
        call_ensures(
            mint_wrapped_instruction,
            (&program_id, &accounts, txid, vout, amount, epoch),
            ix,
        ),
    ensures
        ix@.program == program_id@,
        ix@.accounts.len() == 11,
        0 <= i < 11 ==> (ix@.accounts[i].signer <==> i == 0) && (ix@.accounts[i].writable <==> i
            == 0 || i == 3 || i == 4 || i == 7),
        ix@.accounts[0].key == accounts.submitter@,
        ix@.accounts[1].key == accounts.bridge_config@,
        ix@.accounts[2].key == accounts.validator_set@,
        ix@.accounts[3].key == accounts.deposit_claim@,
        ix@.accounts[4].key == accounts.wrapped_mint@,
        ix@.accounts[5].key == accounts.mint_authority@,
        ix@.accounts[6].key == accounts.recipient@,
        ix@.accounts[7].key == accounts.recipient_token_account@,
        le_value(ix@.data.subrange(44, 52)) == amount,
        ix@.data.subrange(8, 40) == txid@,
{
    a_mint_carries_the_deposit(txid@, vout, amount, epoch);
}

/// A completion writes the submitter and the withdrawal and no other, and the
/// submitter alone signs it.
pub proof fn a_completion_writes_only_the_withdrawal(
    program_id: Pubkey,
    accounts: CompleteWithdrawalAccounts,
    index: u64,
    payout_txid: [u8; 32],
    payout_height: u64,
    epoch: u64,
    ix: Instruction,
    i: int,
)
    requires
        call_ensures(
            complete_withdrawal_instruction,
            (&program_id, &accounts, index, payout_txid, payout_height, epoch),
            ix,
        ),
    ensures
        ix@.program == program_id@,
        ix@.accounts.len() == 5,
        0 <= i < 5 ==> (ix@.accounts[i].signer <==> i == 0) && (ix@.accounts[i].writable <==> i == 0
            || i == 3),
        ix@.accounts[0].key == accounts.submitter@,
        ix@.accounts[1].key == accounts.bridge_config@,
        ix@.accounts[2].key == accounts.validator_set@,
        ix@.accounts[3].key == accounts.withdrawal@,
        le_value(ix@.data.subrange(8, 16)) == index,
        ix@.data.subrange(16, 48) == payout_txid@,
{
    a_completion_carries_the_payout(index, payout_txid@, payout_height, epoch);
}

/// The bytes of each seed spell its name in ASCII.
proof fn lemma_seeds_spell_their_names()
    ensures
        SEED_BRIDGE_CONFIG@ == "bridge_config"@.map_values(|c: char| c as u8),
        SEED_VALIDATOR_SET@ == "validator_set"@.map_values(|c: char| c as u8),
        SEED_MINT_AUTHORITY@ == "mint_authority"@.map_values(|c: char| c as u8),
        SEED_GOVERNANCE_ACTION@ == "governance_action"@.map_values(|c: char| c as u8),
        SEED_DEPOSIT_CLAIM@ == "deposit_claim"@.map_values(|c: char| c as u8),
        SEED_WITHDRAWAL@ == "withdrawal"@.map_values(|c: char| c as u8),
        SEED_METADATA@ == "metadata"@.map_values(|c: char| c as u8),
{
    reveal_strlit("bridge_config");
    reveal_strlit("validator_set");
    reveal_strlit("mint_authority");
    reveal_strlit("governance_action");
    reveal_strlit("deposit_claim");
    reveal_strlit("withdrawal");
    reveal_strlit("metadata");
    assert(SEED_BRIDGE_CONFIG@ =~= "bridge_config"@.map_values(|c: char| c as u8));
    assert(SEED_VALIDATOR_SET@ =~= "validator_set"@.map_values(|c: char| c as u8));
    assert(SEED_MINT_AUTHORITY@ =~= "mint_authority"@.map_values(|c: char| c as u8));
    assert(SEED_GOVERNANCE_ACTION@ =~= "governance_action"@.map_values(|c: char| c as u8));
    assert(SEED_DEPOSIT_CLAIM@ =~= "deposit_claim"@.map_values(|c: char| c as u8));
    assert(SEED_WITHDRAWAL@ =~= "withdrawal"@.map_values(|c: char| c as u8));
    assert(SEED_METADATA@ =~= "metadata"@.map_values(|c: char| c as u8));
}

/// The accounts of the bridge are derived from their names alone, under the
/// bridge; the claim of a deposit from the deposit too, and the record of a
/// withdrawal from its index. The metadata of a mint is derived under the
/// metadata program, and what the loader keeps under the loader.
pub proof fn accounts_are_derived_from_their_names(
    program: Seq<u8>,
    txid: Seq<u8>,
    vout: u32,
    index: u64,
    mint: Seq<u8>,
)
    ensures
        ({
            let named = |name: Seq<char>| name.map_values(|c: char| c as u8);
            &&& bridge_config_at(program) == program_address(
                seq![named("bridge_config"@)],
                program,
            )
            &&& validator_set_at(program) == program_address(
                seq![named("validator_set"@)],
                program,
            )
            &&& mint_authority_at(program) == program_address(
                seq![named("mint_authority"@)],
                program,
            )
            &&& governance_action_at(program) == program_address(
                seq![named("governance_action"@)],
                program,
            )
            &&& deposit_claim_at(program, txid, vout) == program_address(
                seq![named("deposit_claim"@), txid, le_bytes(vout as nat, 4)],
                program,
            )
            &&& withdrawal_at(program, index) == program_address(
                seq![named("withdrawal"@), le_bytes(index as nat, 8)],
                program,
            )
            &&& token_metadata_at(mint) == program_address(
                seq![named("metadata"@), TOKEN_METADATA_PROGRAM_ID@, mint],
                TOKEN_METADATA_PROGRAM_ID@,
            )
            &&& program_data_at(program) == program_address(seq![program], UPGRADEABLE_LOADER_ID@)
        }),
{
    lemma_seeds_spell_their_names();
}

/// A call can be made exactly where every account that it names has an address.
pub proof fn a_call_needs_the_addresses_it_names(program: Seq<u8>, mint: Seq<u8>)
    ensures
        can_govern(program) <==> bridge_config_at(program) is Some && validator_set_at(
            program,
        ) is Some && governance_action_at(program) is Some,
        can_start(program) <==> bridge_config_at(program) is Some && validator_set_at(
            program,
        ) is Some && program_data_at(program) is Some,
        can_create_mint(program) <==> bridge_config_at(program) is Some && mint_authority_at(
            program,
        ) is Some,
        can_describe(program, mint) <==> bridge_config_at(program) is Some && mint_authority_at(
            program,
        ) is Some && token_metadata_at(mint) is Some,
{
}

} // verus!
