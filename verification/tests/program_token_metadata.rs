//! Creating the wrapped coin's metadata on chain.

use glc_bridge::program::errors::BridgeError;
use glc_bridge::program::token_metadata::{
    create_at, create_token_metadata, try_create_token_metadata, BridgeConfig,
    CreateTokenMetadata, MetadataAccount, TOKEN_METADATA_PROGRAM_ID, WRAPPED_GLC_NAME,
    WRAPPED_GLC_SYMBOL,
};
use glc_bridge::solana::instruction::{token_metadata_pda, Instruction};
use glc_bridge::solana::pubkey::Pubkey;

fn key(k: solana_sdk::pubkey::Pubkey) -> Pubkey {
    Pubkey::new_from_array(k.to_bytes())
}

fn unique() -> Pubkey {
    key(solana_sdk::pubkey::Pubkey::new_unique())
}

fn metaplex() -> solana_sdk::pubkey::Pubkey {
    "metaqbxxUerdq28cj1RbAWkYQm3ybzjb6a8bt518x1s"
        .parse()
        .unwrap()
}

/// The accounts of a call by the admin, before any metadata exists.
#[allow(deprecated)]
fn accounts() -> CreateTokenMetadata {
    let admin = unique();
    let mint = unique();
    CreateTokenMetadata {
        admin,
        bridge_config: BridgeConfig {
            admin,
            wrapped_mint: mint,
        },
        mint_authority: unique(),
        wrapped_mint: mint,
        metadata: MetadataAccount {
            key: token_metadata_pda(&mint).0,
            owner: key(solana_sdk::system_program::id()),
            is_empty: true,
        },
    }
}

/// The same accounts once the metadata has been written.
fn written(a: &CreateTokenMetadata) -> CreateTokenMetadata {
    CreateTokenMetadata {
        metadata: MetadataAccount {
            owner: key(metaplex()),
            is_empty: false,
            ..a.metadata
        },
        ..*a
    }
}

/// The three strings that the call carries.
fn strings(ix: &Instruction) -> Vec<String> {
    let mut off = 1;
    let mut out = Vec::new();
    for _ in 0..3 {
        let len = u32::from_le_bytes(ix.data[off..off + 4].try_into().unwrap()) as usize;
        out.push(String::from_utf8(ix.data[off + 4..off + 4 + len].to_vec()).unwrap());
        off += 4 + len;
    }
    out
}

#[test]
fn metadata_is_created_with_the_name_and_symbol_wallets_will_show() {
    let a = accounts();
    let ix = create_token_metadata(&a, "https://example.invalid/wglc.json")
        .unwrap()
        .unwrap();
    assert_eq!(ix.program_id, key(metaplex()));
    assert_eq!(ix.data[0], 33);
    assert_eq!(
        strings(&ix),
        vec![
            "Wrapped Goldcoin".to_string(),
            "wGLC".to_string(),
            "https://example.invalid/wglc.json".to_string()
        ]
    );
    assert_eq!(&ix.data[ix.data.len() - 7..], &[0, 0, 0, 0, 0, 1, 0]);
    assert_eq!(
        ix.accounts[4].pubkey, a.mint_authority,
        "update authority must be the program's PDA, not a loose keypair"
    );
    assert!(ix.accounts[2].is_signer, "the mint authority signs");
    assert_eq!(ix.accounts[2].pubkey, a.mint_authority);
    assert_eq!(
        ix.accounts[6].pubkey,
        key(solana_sdk::sysvar::rent::ID),
        "the metadata program reads the rent sysvar"
    );
}

#[test]
fn creating_metadata_twice_is_a_no_op_rather_than_a_failure() {
    let a = accounts();
    assert!(create_token_metadata(&a, "u").unwrap().is_some());
    assert_eq!(create_token_metadata(&written(&a), "u"), Ok(None));
}

#[test]
fn a_second_run_with_a_different_uri_still_does_not_rewrite() {
    let a = accounts();
    assert!(create_token_metadata(&a, "first").unwrap().is_some());
    assert_eq!(create_token_metadata(&written(&a), "second"), Ok(None));
}

#[test]
fn an_empty_account_of_the_metadata_program_is_still_written() {
    let mut a = written(&accounts());
    a.metadata.is_empty = true;
    assert!(create_token_metadata(&a, "u").unwrap().is_some());
}

#[test]
fn only_the_admin_may_create_metadata() {
    let mut a = accounts();
    a.admin = unique();
    assert_eq!(
        create_token_metadata(&a, "u"),
        Err(BridgeError::UnauthorizedAdmin)
    );
}

#[test]
fn metadata_cannot_be_attached_to_a_different_mint() {
    let mut a = accounts();
    a.wrapped_mint = unique();
    a.metadata.key = token_metadata_pda(&a.wrapped_mint).0;
    assert_eq!(
        create_token_metadata(&a, "u"),
        Err(BridgeError::MintNotConfigured)
    );
}

#[test]
fn an_unset_mint_cannot_be_named() {
    let mut a = accounts();
    a.wrapped_mint = Pubkey::default();
    a.bridge_config.wrapped_mint = Pubkey::default();
    a.metadata.key = token_metadata_pda(&a.wrapped_mint).0;
    assert_eq!(
        create_token_metadata(&a, "u"),
        Err(BridgeError::MintNotConfigured)
    );
}

#[test]
fn a_metadata_account_that_is_not_the_derived_pda_is_refused() {
    let mut a = accounts();
    a.metadata.key = unique();
    assert_eq!(
        create_token_metadata(&a, "u"),
        Err(BridgeError::InvalidMetadataAccount)
    );
}

#[test]
fn an_over_long_uri_is_refused_with_our_error_not_a_cpi_failure() {
    let a = accounts();
    assert_eq!(
        create_token_metadata(&a, &"x".repeat(201)),
        Err(BridgeError::UriTooLong)
    );
    assert!(create_token_metadata(&a, &"x".repeat(200)).is_ok());
    assert_eq!(
        create_token_metadata(&a, &"é".repeat(101)),
        Err(BridgeError::UriTooLong),
        "the limit is in bytes"
    );
}

#[test]
fn metadata_creation_does_not_touch_the_mint() {
    let a = accounts();
    let ix = create_token_metadata(&a, "u").unwrap().unwrap();
    let mint = ix
        .accounts
        .iter()
        .find(|m| m.pubkey == a.wrapped_mint)
        .unwrap();
    assert!(!mint.is_writable, "the mint is only read");
    let written: Vec<Pubkey> = ix
        .accounts
        .iter()
        .filter(|m| m.is_writable)
        .map(|m| m.pubkey)
        .collect();
    assert_eq!(written, vec![a.metadata.key, a.admin]);
}

#[test]
fn the_derived_metadata_pda_matches_metaplexs_own_derivation() {
    let mint = unique();
    let expected = solana_sdk::pubkey::Pubkey::find_program_address(
        &[b"metadata", metaplex().as_ref(), &mint.bytes],
        &metaplex(),
    )
    .0;
    assert_eq!(token_metadata_pda(&mint).0, key(expected));
}

#[test]
fn the_metaplex_program_id_is_the_mainnet_one() {
    assert_eq!(TOKEN_METADATA_PROGRAM_ID, metaplex().to_bytes());
    assert_eq!(WRAPPED_GLC_NAME, "Wrapped Goldcoin");
    assert_eq!(WRAPPED_GLC_SYMBOL, "wGLC");
}

#[test]
fn an_account_at_the_stated_address_is_accepted() {
    let mut a = accounts();
    let elsewhere = unique();
    a.metadata.key = elsewhere;
    assert!(create_at(&a, &elsewhere, "u").unwrap().is_some());
    assert_eq!(
        create_at(&a, &unique(), "u"),
        Err(BridgeError::InvalidMetadataAccount)
    );
    let b = accounts();
    assert_eq!(
        try_create_token_metadata(&b, "u"),
        Some(create_token_metadata(&b, "u"))
    );
}

#[test]
fn refusals_carry_their_words() {
    assert_eq!(
        BridgeError::UnauthorizedAdmin.message(),
        "Signer is not the bridge admin"
    );
    assert_eq!(
        BridgeError::WrappedSupplyCapNotLowered.message(),
        "The admin may only LOWER the wrapped-supply cap; raising it requires \
         threshold-approved, timelocked governance"
    );
    assert_eq!(
        BridgeError::MetadataNotFound.message(),
        "no token metadata exists for this mint yet — create it first"
    );
    assert_eq!(
        BridgeError::EmptyValidatorSet.message(),
        "Validator set must contain at least one validator"
    );
}
