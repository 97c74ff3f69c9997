//! The instructions of the bridge program, byte by byte.

use glc_bridge::solana::instruction::{
    accept_admin_instruction, anchor_discriminator, bridge_config_pda, cancel_rotation_instruction,
    create_token_metadata_instruction, create_wrapped_mint_instruction, deposit_claim_pda,
    execute_cap_raise_instruction, execute_rotation_instruction, governance_action_pda,
    initialize_instruction, lower_supply_cap_instruction, mint_authority_pda,
    mint_wrapped_instruction, program_data_address, propose_cap_raise_instruction,
    propose_rotation_instruction, set_paused_instruction, token_metadata_pda,
    transfer_admin_instruction, update_token_metadata_instruction, validator_set_pda, Instruction,
    MintWrappedAccounts, Pubkey, SEED_BRIDGE_CONFIG, SEED_DEPOSIT_CLAIM, SEED_GOVERNANCE_ACTION,
    SEED_MINT_AUTHORITY, SEED_VALIDATOR_SET, TOKEN_METADATA_PROGRAM_ID, WRAPPED_GLC_NAME,
    WRAPPED_GLC_SYMBOL, WRAPPED_GLC_URI,
};

/// A key of this library, from one of the Solana crates.
fn key(k: solana_sdk::pubkey::Pubkey) -> Pubkey {
    Pubkey::new_from_array(k.to_bytes())
}

/// The key of the Solana crates, from one of this library.
fn sdk(k: &Pubkey) -> solana_sdk::pubkey::Pubkey {
    solana_sdk::pubkey::Pubkey::new_from_array(k.to_bytes())
}

fn unique() -> Pubkey {
    key(solana_sdk::pubkey::Pubkey::new_unique())
}

#[allow(deprecated)]
fn system_program() -> Pubkey {
    key(solana_sdk::system_program::id())
}

#[test]
fn discriminator_matches_the_anchor_convention_used_elsewhere_in_this_repo() {
    let d = anchor_discriminator("mint_wrapped");
    let expected = <sha2::Sha256 as sha2::Digest>::digest(b"global:mint_wrapped");
    assert_eq!(d, expected[..8]);
}

#[test]
fn instruction_data_layout_is_discriminator_then_borsh_args() {
    let program_id = unique();
    let accounts = MintWrappedAccounts {
        submitter: unique(),
        bridge_config: unique(),
        validator_set: unique(),
        deposit_claim: unique(),
        wrapped_mint: unique(),
        mint_authority: unique(),
        recipient: unique(),
        recipient_token_account: unique(),
    };
    let txid = [0xAB; 32];
    let ix = mint_wrapped_instruction(&program_id, &accounts, txid, 3, 50_000, 7);
    assert_eq!(ix.data.len(), 8 + 32 + 4 + 8 + 8);
    assert_eq!(&ix.data[8..40], &txid);
    assert_eq!(&ix.data[40..44], &3u32.to_le_bytes());
    assert_eq!(&ix.data[44..52], &50_000u64.to_le_bytes());
    assert_eq!(&ix.data[52..60], &7u64.to_le_bytes());
}

#[test]
fn account_order_and_mutability_matches_onchain_struct() {
    let program_id = unique();
    let accounts = MintWrappedAccounts {
        submitter: unique(),
        bridge_config: unique(),
        validator_set: unique(),
        deposit_claim: unique(),
        wrapped_mint: unique(),
        mint_authority: unique(),
        recipient: unique(),
        recipient_token_account: unique(),
    };
    let ix = mint_wrapped_instruction(&program_id, &accounts, [0; 32], 0, 1, 0);
    assert_eq!(ix.accounts.len(), 11);
    let expect = [
        (accounts.submitter, true, true),
        (accounts.bridge_config, false, false),
        (accounts.validator_set, false, false),
        (accounts.deposit_claim, false, true),
        (accounts.wrapped_mint, false, true),
        (accounts.mint_authority, false, false),
        (accounts.recipient, false, false),
        (accounts.recipient_token_account, false, true),
        (key(solana_sdk::sysvar::instructions::ID), false, false),
        (key(spl_token::ID), false, false),
        (system_program(), false, false),
    ];
    for (i, (pubkey, is_signer, is_writable)) in expect.into_iter().enumerate() {
        assert_eq!(ix.accounts[i].pubkey, pubkey, "account {i} pubkey");
        assert_eq!(ix.accounts[i].is_signer, is_signer, "account {i} is_signer");
        assert_eq!(
            ix.accounts[i].is_writable, is_writable,
            "account {i} is_writable"
        );
    }
}

#[test]
fn pda_derivations_are_deterministic() {
    let program_id = unique();
    assert_eq!(
        bridge_config_pda(&program_id),
        bridge_config_pda(&program_id)
    );
    assert_eq!(
        validator_set_pda(&program_id),
        validator_set_pda(&program_id)
    );
    assert_eq!(
        mint_authority_pda(&program_id),
        mint_authority_pda(&program_id)
    );
    let txid = [1u8; 32];
    assert_eq!(
        deposit_claim_pda(&program_id, &txid, 5),
        deposit_claim_pda(&program_id, &txid, 5)
    );
    assert_ne!(
        deposit_claim_pda(&program_id, &txid, 5).0,
        deposit_claim_pda(&program_id, &txid, 6).0,
        "different vout must derive a different claim PDA"
    );
}

/// Who signs and who is written, account by account.
fn shape(ix: &Instruction) -> Vec<(Pubkey, bool, bool)> {
    ix.accounts
        .iter()
        .map(|m| (m.pubkey, m.is_signer, m.is_writable))
        .collect()
}

#[test]
fn every_seed_is_pinned_to_its_literal_bytes() {
    assert_eq!(&SEED_BRIDGE_CONFIG, b"bridge_config");
    assert_eq!(&SEED_VALIDATOR_SET, b"validator_set");
    assert_eq!(&SEED_MINT_AUTHORITY, b"mint_authority");
    assert_eq!(&SEED_DEPOSIT_CLAIM, b"deposit_claim");
    assert_eq!(&SEED_GOVERNANCE_ACTION, b"governance_action");
}

#[test]
fn set_paused_is_discriminator_then_one_borsh_bool() {
    let program_id = unique();
    let admin = unique();
    let ix = set_paused_instruction(&program_id, &admin, true);
    assert_eq!(&ix.data[..8], &anchor_discriminator("set_paused"));
    assert_eq!(ix.data.len(), 9);
    assert_eq!(ix.data[8], 1);
    assert_eq!(
        set_paused_instruction(&program_id, &admin, false).data[8],
        0,
        "the argument must actually reach the wire"
    );
    assert_eq!(
        shape(&ix),
        vec![
            (admin, true, false),
            (bridge_config_pda(&program_id).0, false, true)
        ]
    );
}

#[test]
fn lower_supply_cap_is_discriminator_then_a_u64() {
    let program_id = unique();
    let admin = unique();
    let ix = lower_supply_cap_instruction(&program_id, &admin, 21_000_000_000_000);
    assert_eq!(
        &ix.data[..8],
        &anchor_discriminator("lower_wrapped_supply_cap")
    );
    assert_eq!(&ix.data[8..16], &21_000_000_000_000u64.to_le_bytes());
    assert_eq!(ix.data.len(), 16);
    assert_eq!(shape(&ix).len(), 2);
}

#[test]
fn propose_rotation_encodes_a_borsh_vec_then_the_threshold() {
    let program_id = unique();
    let proposer = unique();
    let validators = vec![unique(), unique()];
    let ix = propose_rotation_instruction(&program_id, &proposer, &validators, 2);

    assert_eq!(
        &ix.data[..8],
        &anchor_discriminator("propose_validator_rotation")
    );
    assert_eq!(&ix.data[8..12], &2u32.to_le_bytes(), "Vec length prefix");
    assert_eq!(&ix.data[12..44], &validators[0].bytes);
    assert_eq!(&ix.data[44..76], &validators[1].bytes);
    assert_eq!(ix.data[76], 2, "the threshold follows the vector");
    assert_eq!(ix.data.len(), 77);

    assert_eq!(
        shape(&ix),
        vec![
            (proposer, true, true),
            (bridge_config_pda(&program_id).0, false, false),
            (validator_set_pda(&program_id).0, false, false),
            (governance_action_pda(&program_id).0, false, true),
            (key(solana_sdk::sysvar::instructions::ID), false, false),
            (system_program(), false, false),
        ]
    );
}

#[test]
fn validator_order_is_preserved_because_it_fixes_the_bitmask_index() {
    let program_id = unique();
    let p = unique();
    let a = unique();
    let b = unique();
    let ab = propose_rotation_instruction(&program_id, &p, &[a, b], 1);
    let ba = propose_rotation_instruction(&program_id, &p, &[b, a], 1);
    assert_ne!(ab.data, ba.data);
    assert_eq!(&ab.data[12..44], &a.bytes);
    assert_eq!(&ba.data[12..44], &b.bytes);
}

#[test]
fn the_two_execute_paths_have_mirror_image_writability() {
    let program_id = unique();
    let executor = unique();
    let config = bridge_config_pda(&program_id).0;
    let vset = validator_set_pda(&program_id).0;
    let action = governance_action_pda(&program_id).0;

    assert_eq!(
        shape(&execute_rotation_instruction(&program_id, &executor)),
        vec![
            (executor, true, true),
            (config, false, false),
            (vset, false, true),
            (action, false, true),
        ]
    );
    assert_eq!(
        shape(&execute_cap_raise_instruction(&program_id, &executor)),
        vec![
            (executor, true, true),
            (config, false, true),
            (vset, false, false),
            (action, false, true),
        ]
    );
}

#[test]
fn the_execute_instructions_carry_a_bare_discriminator() {
    let program_id = unique();
    let e = unique();
    assert_eq!(
        execute_rotation_instruction(&program_id, &e).data,
        anchor_discriminator("execute_validator_rotation").to_vec()
    );
    assert_eq!(
        execute_cap_raise_instruction(&program_id, &e).data,
        anchor_discriminator("execute_wrapped_supply_cap_raise").to_vec()
    );
}

#[test]
fn cancel_reads_the_sysvar_and_takes_no_system_program() {
    let program_id = unique();
    let canceller = unique();
    let ix = cancel_rotation_instruction(&program_id, &canceller);
    assert_eq!(
        ix.data,
        anchor_discriminator("cancel_validator_rotation").to_vec()
    );
    assert_eq!(
        shape(&ix),
        vec![
            (canceller, true, true),
            (bridge_config_pda(&program_id).0, false, false),
            (validator_set_pda(&program_id).0, false, false),
            (governance_action_pda(&program_id).0, false, true),
            (key(solana_sdk::sysvar::instructions::ID), false, false),
        ]
    );
    assert!(
        !ix.accounts.iter().any(|m| m.pubkey == system_program()),
        "cancel creates no account and must not take the system program"
    );
}

#[test]
fn both_proposals_take_the_same_accounts() {
    let program_id = unique();
    let p = unique();
    assert_eq!(
        shape(&propose_rotation_instruction(&program_id, &p, &[], 1)),
        shape(&propose_cap_raise_instruction(&program_id, &p, 1))
    );
}

#[test]
fn the_governance_action_pda_is_a_singleton_per_program() {
    let a = unique();
    let b = unique();
    assert_ne!(governance_action_pda(&a).0, governance_action_pda(&b).0);
    assert_eq!(governance_action_pda(&a).0, governance_action_pda(&a).0);
}

#[test]
fn instruction_initialize_encodes_its_arguments_in_declaration_order() {
    let program_id = unique();
    let authority = unique();
    let validators = vec![unique(), unique()];
    let ix = initialize_instruction(
        &program_id,
        &authority,
        &validators,
        2,
        1_000,
        2_000,
        3_600,
        77,
    );
    assert_eq!(&ix.data[..8], &anchor_discriminator("initialize"));
    assert_eq!(&ix.data[8..12], &2u32.to_le_bytes());
    assert_eq!(&ix.data[12..44], &validators[0].bytes);
    assert_eq!(&ix.data[44..76], &validators[1].bytes);
    assert_eq!(ix.data[76], 2);
    assert_eq!(&ix.data[77..85], &1_000u64.to_le_bytes());
    assert_eq!(&ix.data[85..93], &2_000u64.to_le_bytes());
    assert_eq!(&ix.data[93..101], &3_600i64.to_le_bytes());
    assert_eq!(&ix.data[101..109], &77u64.to_le_bytes());
    assert_eq!(ix.data.len(), 109);

    assert_eq!(
        shape(&ix),
        vec![
            (authority, true, true),
            (bridge_config_pda(&program_id).0, false, true),
            (validator_set_pda(&program_id).0, false, true),
            (program_id, false, false),
            (program_data_address(&program_id), false, false),
            (system_program(), false, false),
        ]
    );
}

#[test]
fn initialize_preserves_validator_order() {
    let program_id = unique();
    let a = unique();
    let b = unique();
    let k = unique();
    let ab = initialize_instruction(&program_id, &k, &[a, b], 1, 0, 0, 1, 1);
    let ba = initialize_instruction(&program_id, &k, &[b, a], 1, 0, 0, 1, 1);
    assert_ne!(ab.data, ba.data);
    assert_eq!(&ab.data[12..44], &a.bytes);
}

#[test]
fn instruction_create_wrapped_mint_requires_the_mint_itself_to_sign() {
    let program_id = unique();
    let admin = unique();
    let mint = unique();
    let ix = create_wrapped_mint_instruction(&program_id, &admin, &mint);
    assert_eq!(
        ix.data,
        anchor_discriminator("create_wrapped_mint").to_vec()
    );
    assert_eq!(
        shape(&ix),
        vec![
            (admin, true, true),
            (bridge_config_pda(&program_id).0, false, true),
            (mint_authority_pda(&program_id).0, false, false),
            (mint, true, true),
            (key(spl_token::ID), false, false),
            (system_program(), false, false),
        ]
    );
}

#[test]
fn the_admin_handover_is_signed_by_each_side_in_turn() {
    let program_id = unique();
    let admin = unique();
    let new_admin = unique();

    let t = transfer_admin_instruction(&program_id, &admin, &new_admin);
    assert_eq!(&t.data[..8], &anchor_discriminator("transfer_admin"));
    assert_eq!(&t.data[8..40], &new_admin.bytes);
    assert_eq!(t.data.len(), 40);
    assert_eq!(
        shape(&t)[0],
        (admin, true, false),
        "the OUTGOING admin signs"
    );

    let a = accept_admin_instruction(&program_id, &new_admin);
    assert_eq!(a.data, anchor_discriminator("accept_admin").to_vec());
    assert_eq!(
        shape(&a)[0],
        (new_admin, true, false),
        "the INCOMING admin signs"
    );
}

#[test]
fn the_program_data_address_is_derived_from_the_upgradeable_loader() {
    let program_id = unique();
    #[allow(deprecated)]
    let expected = solana_sdk::pubkey::Pubkey::find_program_address(
        &[&program_id.bytes],
        &solana_sdk::bpf_loader_upgradeable::id(),
    )
    .0;
    assert_eq!(program_data_address(&program_id), key(expected));
}

#[test]
fn instruction_create_token_metadata_encodes_a_borsh_string() {
    let program_id = unique();
    let admin = unique();
    let mint = unique();
    let ix = create_token_metadata_instruction(&program_id, &admin, &mint, "abc");

    assert_eq!(
        &ix.data[..8],
        &anchor_discriminator("create_token_metadata")
    );
    assert_eq!(&ix.data[8..12], &3u32.to_le_bytes());
    assert_eq!(&ix.data[12..15], b"abc");
    assert_eq!(ix.data.len(), 15);

    assert_eq!(
        shape(&ix),
        vec![
            (admin, true, true),
            (bridge_config_pda(&program_id).0, false, false),
            (mint_authority_pda(&program_id).0, false, false),
            (mint, false, false),
            (token_metadata_pda(&mint).0, false, true),
            (Pubkey::new_from_array(TOKEN_METADATA_PROGRAM_ID), false, false),
            (system_program(), false, false),
            (key(solana_sdk::sysvar::rent::ID), false, false),
        ]
    );
}

#[test]
fn an_empty_uri_encodes_as_a_zero_length_string() {
    let program_id = unique();
    let ix = create_token_metadata_instruction(
        &program_id,
        &unique(),
        &unique(),
        "",
    );
    assert_eq!(&ix.data[8..12], &0u32.to_le_bytes());
    assert_eq!(ix.data.len(), 12);
}

#[test]
fn the_metadata_pda_is_derived_under_metaplex_not_under_us() {
    let mint = unique();
    let ours = unique();
    let metaplex = solana_sdk::pubkey::Pubkey::new_from_array(TOKEN_METADATA_PROGRAM_ID);
    let seeds: [&[u8]; 3] = [b"metadata", &TOKEN_METADATA_PROGRAM_ID, &mint.bytes];
    let expected = solana_sdk::pubkey::Pubkey::find_program_address(&seeds, &metaplex).0;
    assert_eq!(token_metadata_pda(&mint).0, key(expected));
    assert_ne!(
        token_metadata_pda(&mint).0,
        key(solana_sdk::pubkey::Pubkey::find_program_address(&seeds, &sdk(&ours)).0)
    );
}

#[test]
fn the_canonical_metadata_uri_is_pinned_and_is_json() {
    assert_eq!(
        WRAPPED_GLC_URI,
        "https://goldcoinproject.org/assets/wglc.json"
    );
    assert!(
        WRAPPED_GLC_URI.starts_with("https://"),
        "wallets fetch this; plain http would be downgraded or blocked"
    );
    assert!(
        WRAPPED_GLC_URI.ends_with(".json"),
        "the URI points at the metadata JSON, not directly at the image"
    );
    assert!(
        WRAPPED_GLC_URI.len() <= 200,
        "the on-chain instruction caps the URI at 200 bytes"
    );
}

#[test]
fn the_metaplex_id_and_display_strings_are_pinned() {
    assert_eq!(
        solana_sdk::pubkey::Pubkey::new_from_array(TOKEN_METADATA_PROGRAM_ID).to_string(),
        "metaqbxxUerdq28cj1RbAWkYQm3ybzjb6a8bt518x1s"
    );
    assert_eq!(WRAPPED_GLC_NAME, "Wrapped Goldcoin");
    assert_eq!(WRAPPED_GLC_SYMBOL, "wGLC");
}

#[test]
fn update_token_metadata_encodes_three_borsh_strings_in_order() {
    let program_id = unique();
    let admin = unique();
    let mint = unique();
    let ix = update_token_metadata_instruction(
        &program_id,
        &admin,
        &mint,
        "Wrapped Goldcoin",
        "wGLC",
        "https://x/a.json",
    );

    assert_eq!(
        &ix.data[..8],
        &anchor_discriminator("update_token_metadata")
    );
    let mut off = 8;
    for expected in ["Wrapped Goldcoin", "wGLC", "https://x/a.json"] {
        let len = u32::from_le_bytes(ix.data[off..off + 4].try_into().unwrap()) as usize;
        assert_eq!(len, expected.len());
        assert_eq!(&ix.data[off + 4..off + 4 + len], expected.as_bytes());
        off += 4 + len;
    }
    assert_eq!(ix.data.len(), off, "no trailing bytes");
}

#[test]
fn an_update_takes_no_mint_account_at_all() {
    let program_id = unique();
    let mint = unique();
    let ix = update_token_metadata_instruction(
        &program_id,
        &unique(),
        &mint,
        "n",
        "s",
        "u",
    );
    assert!(
        !ix.accounts.iter().any(|m| m.pubkey == mint),
        "the mint must not appear among the accounts"
    );
    assert_eq!(
        shape(&ix)
            .iter()
            .filter(|(_, _, writable)| *writable)
            .count(),
        1,
        "only the metadata account is writable"
    );
}

#[test]
fn an_update_writes_only_the_metadata_account() {
    let program_id = unique();
    let admin = unique();
    let mint = unique();
    let ix = update_token_metadata_instruction(&program_id, &admin, &mint, "n", "s", "u");
    assert_eq!(
        shape(&ix),
        vec![
            (admin, true, false),
            (bridge_config_pda(&program_id).0, false, false),
            (mint_authority_pda(&program_id).0, false, false),
            (token_metadata_pda(&mint).0, false, true),
            (Pubkey::new_from_array(TOKEN_METADATA_PROGRAM_ID), false, false),
        ]
    );
}

#[test]
fn create_and_update_target_the_same_metadata_account() {
    let program_id = unique();
    let admin = unique();
    let mint = unique();
    let c = create_token_metadata_instruction(&program_id, &admin, &mint, "u");
    let u = update_token_metadata_instruction(&program_id, &admin, &mint, "n", "s", "u");
    let c_meta = c
        .accounts
        .iter()
        .find(|m| m.is_writable && m.pubkey != admin);
    let u_meta = u.accounts.iter().find(|m| m.is_writable);
    assert_eq!(c_meta.unwrap().pubkey, u_meta.unwrap().pubkey);
}
