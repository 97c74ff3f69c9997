//! The wire encoding of every administrative and governance instruction, and
//! the layout of the accounts that are decoded by hand.

use glc_bridge::program::token_metadata::{WRAPPED_GLC_NAME, WRAPPED_GLC_SYMBOL};
use glc_bridge::solana::instruction::{
    accept_admin_instruction, anchor_discriminator, bridge_config_pda, cancel_rotation_instruction,
    create_token_metadata_instruction, create_wrapped_mint_instruction,
    execute_cap_raise_instruction, execute_rotation_instruction, governance_action_pda,
    initialize_instruction, lower_supply_cap_instruction, mint_authority_pda, program_data_address,
    propose_cap_raise_instruction, propose_rotation_instruction, set_paused_instruction,
    transfer_admin_instruction, validator_set_pda, Instruction, Pubkey,
};
use glc_bridge::solana::rpc::{decode_bridge_config, decode_pending_action};

fn key(k: solana_sdk::pubkey::Pubkey) -> Pubkey {
    Pubkey::new_from_array(k.to_bytes())
}

fn unique() -> Pubkey {
    key(solana_sdk::pubkey::Pubkey::new_unique())
}

#[allow(deprecated)]
fn system_program() -> Pubkey {
    key(solana_sdk::system_program::id())
}

fn program() -> Pubkey {
    Pubkey::new_from_array([0x42; 32])
}

fn config_pda() -> Pubkey {
    bridge_config_pda(&program()).0
}

fn set_pda() -> Pubkey {
    validator_set_pda(&program()).0
}

fn action_pda() -> Pubkey {
    governance_action_pda(&program()).0
}

fn authority_pda() -> Pubkey {
    mint_authority_pda(&program()).0
}

/// The discriminator by its formula, to be compared rather than shared.
fn discriminator(name: &str) -> [u8; 8] {
    let h = <sha2::Sha256 as sha2::Digest>::digest(format!("global:{name}").as_bytes());
    let mut out = [0u8; 8];
    out.copy_from_slice(&h[..8]);
    out
}

fn shape(ix: &Instruction) -> Vec<(Pubkey, bool, bool)> {
    ix.accounts
        .iter()
        .map(|m| (m.pubkey, m.is_signer, m.is_writable))
        .collect()
}

#[test]
fn set_paused_encoding_is_discriminator_then_one_borsh_bool() {
    let admin = unique();
    let ix = set_paused_instruction(&program(), &admin, true);

    assert_eq!(&ix.data[..8], &discriminator("set_paused"));
    assert_eq!(ix.data.len(), 9, "8-byte discriminator + one bool byte");
    assert_eq!(ix.data[8], 1, "true encodes as 1");
    assert_eq!(
        set_paused_instruction(&program(), &admin, false).data[8],
        0,
        "false encodes as 0"
    );
    assert_eq!(
        shape(&ix),
        vec![(admin, true, false), (config_pda(), false, true)]
    );
}

#[test]
fn lower_supply_cap_encoding_is_discriminator_then_a_u64() {
    let admin = unique();
    let ix = lower_supply_cap_instruction(&program(), &admin, 21_000_000_000_000);

    assert_eq!(&ix.data[..8], &discriminator("lower_wrapped_supply_cap"));
    assert_eq!(ix.data.len(), 16);
    assert_eq!(&ix.data[8..16], &21_000_000_000_000u64.to_le_bytes());
    assert_eq!(
        shape(&ix),
        vec![(admin, true, false), (config_pda(), false, true)]
    );
}

#[test]
fn propose_rotation_encoding_is_a_borsh_vec_then_the_threshold() {
    let proposer = unique();
    let validators = vec![unique(), unique()];
    let ix = propose_rotation_instruction(&program(), &proposer, &validators, 2);

    assert_eq!(&ix.data[..8], &discriminator("propose_validator_rotation"));
    assert_eq!(&ix.data[8..12], &2u32.to_le_bytes());
    assert_eq!(&ix.data[12..44], &validators[0].bytes);
    assert_eq!(&ix.data[44..76], &validators[1].bytes);
    assert_eq!(ix.data[76], 2, "threshold follows the vector");
    assert_eq!(ix.data.len(), 77);

    assert_eq!(
        shape(&ix),
        vec![
            (proposer, true, true),
            (config_pda(), false, false),
            (set_pda(), false, false),
            (action_pda(), false, true),
            (key(solana_sdk::sysvar::instructions::ID), false, false),
            (system_program(), false, false),
        ]
    );
}

#[test]
fn execute_rotation_writes_the_validator_set_and_only_reads_the_config() {
    let executor = unique();
    let ix = execute_rotation_instruction(&program(), &executor);

    assert_eq!(
        ix.data,
        discriminator("execute_validator_rotation").to_vec()
    );
    assert_eq!(
        shape(&ix),
        vec![
            (executor, true, true),
            (config_pda(), false, false),
            (set_pda(), false, true),
            (action_pda(), false, true),
        ]
    );
}

#[test]
fn execute_cap_raise_writes_the_config_and_only_reads_the_validator_set() {
    let executor = unique();
    let ix = execute_cap_raise_instruction(&program(), &executor);

    assert_eq!(
        ix.data,
        discriminator("execute_wrapped_supply_cap_raise").to_vec()
    );
    assert_eq!(
        shape(&ix),
        vec![
            (executor, true, true),
            (config_pda(), false, true),
            (set_pda(), false, false),
            (action_pda(), false, true),
        ]
    );
}

#[test]
fn cancel_rotation_carries_the_instructions_sysvar_and_no_system_program() {
    let canceller = unique();
    let ix = cancel_rotation_instruction(&program(), &canceller);

    assert_eq!(ix.data, discriminator("cancel_validator_rotation").to_vec());
    assert_eq!(
        shape(&ix),
        vec![
            (canceller, true, true),
            (config_pda(), false, false),
            (set_pda(), false, false),
            (action_pda(), false, true),
            (key(solana_sdk::sysvar::instructions::ID), false, false),
        ]
    );
}

#[test]
fn propose_cap_raise_shares_the_proposal_account_shape() {
    let proposer = unique();
    let ix = propose_cap_raise_instruction(&program(), &proposer, 42);

    assert_eq!(
        &ix.data[..8],
        &discriminator("propose_wrapped_supply_cap_raise")
    );
    assert_eq!(&ix.data[8..16], &42u64.to_le_bytes());
    assert_eq!(ix.data.len(), 16);
    assert_eq!(
        shape(&ix),
        shape(&propose_rotation_instruction(
            &program(),
            &proposer,
            &[],
            1
        )),
        "both proposals take the same accounts in the same order"
    );
}

#[test]
fn the_governance_action_pda_uses_the_seed_the_relayer_copies() {
    let program_id = solana_sdk::pubkey::Pubkey::new_from_array([0x42; 32]);
    assert_eq!(
        action_pda(),
        key(
            solana_sdk::pubkey::Pubkey::find_program_address(&[b"governance_action"], &program_id)
                .0
        )
    );
}

#[test]
fn anchor_generates_exactly_the_discriminators_the_relayer_computes() {
    let k = unique();
    for (name, data) in [
        (
            "set_paused",
            set_paused_instruction(&program(), &k, true).data,
        ),
        (
            "lower_wrapped_supply_cap",
            lower_supply_cap_instruction(&program(), &k, 1).data,
        ),
        (
            "propose_validator_rotation",
            propose_rotation_instruction(&program(), &k, &[], 1).data,
        ),
        (
            "execute_validator_rotation",
            execute_rotation_instruction(&program(), &k).data,
        ),
        (
            "cancel_validator_rotation",
            cancel_rotation_instruction(&program(), &k).data,
        ),
        (
            "propose_wrapped_supply_cap_raise",
            propose_cap_raise_instruction(&program(), &k, 1).data,
        ),
        (
            "execute_wrapped_supply_cap_raise",
            execute_cap_raise_instruction(&program(), &k).data,
        ),
    ] {
        assert_eq!(&data[..8], &discriminator(name), "{name}");
        assert_eq!(&data[..8], &anchor_discriminator(name), "{name}");
    }
}

#[test]
fn accounts_structs_have_not_grown_or_shrunk() {
    let k = unique();
    let p = program();
    assert_eq!(set_paused_instruction(&p, &k, true).accounts.len(), 2);
    assert_eq!(lower_supply_cap_instruction(&p, &k, 1).accounts.len(), 2);
    assert_eq!(
        propose_rotation_instruction(&p, &k, &[], 1).accounts.len(),
        6
    );
    assert_eq!(propose_cap_raise_instruction(&p, &k, 1).accounts.len(), 6);
    assert_eq!(execute_rotation_instruction(&p, &k).accounts.len(), 4);
    assert_eq!(execute_cap_raise_instruction(&p, &k).accounts.len(), 4);
    assert_eq!(cancel_rotation_instruction(&p, &k).accounts.len(), 5);
}

#[test]
fn pending_governance_action_serialises_at_the_offsets_the_relayer_reads() {
    let validators = [unique(), unique()];
    let mut data = vec![0u8; 8 + 119];
    let body = &mut data[8..];
    body[0] = 0x03;
    body[1..9].copy_from_slice(&9u64.to_le_bytes());
    body[9..17].copy_from_slice(&1_800_000_000i64.to_le_bytes());
    body[17] = 2;
    body[18..22].copy_from_slice(&2u32.to_le_bytes());
    body[22..54].copy_from_slice(&validators[0].bytes);
    body[54..86].copy_from_slice(&validators[1].bytes);
    body[86] = 0xFE;
    body[87..95].copy_from_slice(&77u64.to_le_bytes());
    let got = decode_pending_action(&data).unwrap();
    assert_eq!(got.action, 0x03);
    assert_eq!(got.proposed_under_epoch, 9);
    assert_eq!(got.eta, 1_800_000_000);
    assert_eq!(got.threshold, 2);
    assert_eq!(got.validators, validators.to_vec());
    assert_eq!(got.proposed_max_wrapped_supply, 77);
}

#[test]
fn a_cap_raise_shifts_the_supply_field_because_its_validator_list_is_empty() {
    let mut data = vec![0u8; 8 + 55];
    let body = &mut data[8..];
    body[0] = 0x05;
    body[1..9].copy_from_slice(&4u64.to_le_bytes());
    body[9..17].copy_from_slice(&123i64.to_le_bytes());
    body[18..22].copy_from_slice(&0u32.to_le_bytes());
    body[22] = 0xFE;
    body[23..31].copy_from_slice(&21_000_000_000_000u64.to_le_bytes());
    let got = decode_pending_action(&data).unwrap();
    assert!(got.validators.is_empty());
    assert_eq!(got.proposed_max_wrapped_supply, 21_000_000_000_000);
}

#[test]
fn admin_governance_encoding_initialize_encodes_its_arguments_in_declaration_order() {
    let authority = unique();
    let validators = vec![unique(), unique()];
    let ix = initialize_instruction(
        &program(),
        &authority,
        &validators,
        2,
        1_000,
        2_000,
        3_600,
        77,
    );

    assert_eq!(&ix.data[..8], &discriminator("initialize"));
    assert_eq!(&ix.data[8..12], &2u32.to_le_bytes(), "Vec length prefix");
    assert_eq!(&ix.data[12..44], &validators[0].bytes);
    assert_eq!(&ix.data[44..76], &validators[1].bytes);
    assert_eq!(ix.data[76], 2, "threshold");
    assert_eq!(&ix.data[77..85], &1_000u64.to_le_bytes());
    assert_eq!(&ix.data[85..93], &2_000u64.to_le_bytes());
    assert_eq!(&ix.data[93..101], &3_600i64.to_le_bytes());
    assert_eq!(&ix.data[101..109], &77u64.to_le_bytes());
    assert_eq!(ix.data.len(), 109);

    assert_eq!(
        shape(&ix),
        vec![
            (authority, true, true),
            (config_pda(), false, true),
            (set_pda(), false, true),
            (program(), false, false),
            (program_data_address(&program()), false, false),
            (system_program(), false, false),
        ]
    );
}

#[test]
fn admin_governance_encoding_create_wrapped_mint_requires_the_mint_itself_to_sign() {
    let admin = unique();
    let mint = unique();
    let ix = create_wrapped_mint_instruction(&program(), &admin, &mint);

    assert_eq!(ix.data, discriminator("create_wrapped_mint").to_vec());
    assert_eq!(
        shape(&ix),
        vec![
            (admin, true, true),
            (config_pda(), false, true),
            (authority_pda(), false, false),
            (mint, true, true),
            (key(spl_token::ID), false, false),
            (system_program(), false, false),
        ]
    );
}

#[test]
fn transfer_admin_encodes_the_incoming_key() {
    let admin = unique();
    let new_admin = unique();
    let ix = transfer_admin_instruction(&program(), &admin, &new_admin);

    assert_eq!(&ix.data[..8], &discriminator("transfer_admin"));
    assert_eq!(&ix.data[8..40], &new_admin.bytes);
    assert_eq!(ix.data.len(), 40);
    assert_eq!(
        shape(&ix),
        vec![(admin, true, false), (config_pda(), false, true)]
    );
}

#[test]
fn accept_admin_is_signed_by_the_incoming_key_not_the_outgoing_one() {
    let new_admin = unique();
    let ix = accept_admin_instruction(&program(), &new_admin);

    assert_eq!(ix.data, discriminator("accept_admin").to_vec());
    assert_eq!(
        shape(&ix),
        vec![(new_admin, true, false), (config_pda(), false, true)]
    );
}

#[test]
fn bridge_config_serialises_at_the_offsets_the_relayer_reads() {
    for pending in [None, Some(unique())] {
        let admin = unique();
        let mint = unique();
        let mut data = vec![0u8; 8];
        data.push(1);
        data.extend_from_slice(&admin.bytes);
        match &pending {
            None => data.push(0),
            Some(p) => {
                data.push(1);
                data.extend_from_slice(&p.bytes);
            }
        }
        let off = match pending {
            None => 34,
            Some(_) => 66,
        };
        assert_eq!(data.len(), 8 + off);
        data.push(1);
        data.extend_from_slice(&9u64.to_le_bytes());
        data.extend_from_slice(&1_000u64.to_le_bytes());
        data.extend_from_slice(&2_000u64.to_le_bytes());
        data.push(0xFD);
        data.extend_from_slice(&mint.bytes);
        data.push(0xFE);
        data.extend_from_slice(&3_600i64.to_le_bytes());
        data.extend_from_slice(&21_000_000_000_000u64.to_le_bytes());
        data.extend_from_slice(&[0u8; 15]);
        let got = decode_bridge_config(&data).unwrap();
        assert_eq!(got.protocol_version, 1);
        assert_eq!(got.admin, admin);
        assert_eq!(got.pending_admin, pending);
        assert!(got.paused);
        assert_eq!(got.withdrawal_count, 9);
        assert_eq!(got.min_deposit, 1_000);
        assert_eq!(got.min_withdrawal, 2_000);
        assert_eq!(got.wrapped_mint, mint);
        assert_eq!(got.governance_timelock_seconds, 3_600);
        assert_eq!(got.max_wrapped_supply, 21_000_000_000_000);
    }
}

#[test]
fn admin_governance_encoding_create_token_metadata_encodes_a_borsh_string() {
    let admin = unique();
    let mint = unique();
    let metaplex: solana_sdk::pubkey::Pubkey = "metaqbxxUerdq28cj1RbAWkYQm3ybzjb6a8bt518x1s"
        .parse()
        .unwrap();
    let metadata = solana_sdk::pubkey::Pubkey::find_program_address(
        &[b"metadata", metaplex.as_ref(), &mint.bytes],
        &metaplex,
    )
    .0;
    let ix = create_token_metadata_instruction(&program(), &admin, &mint, "abc");

    assert_eq!(&ix.data[..8], &discriminator("create_token_metadata"));
    assert_eq!(&ix.data[8..12], &3u32.to_le_bytes(), "Borsh string length");
    assert_eq!(&ix.data[12..15], b"abc");
    assert_eq!(ix.data.len(), 15);

    assert_eq!(
        shape(&ix),
        vec![
            (admin, true, true),
            (config_pda(), false, false),
            (authority_pda(), false, false),
            (mint, false, false),
            (key(metadata), false, true),
            (key(metaplex), false, false),
            (system_program(), false, false),
            (key(solana_sdk::sysvar::rent::ID), false, false),
        ]
    );
}

#[test]
fn the_metadata_name_and_symbol_are_program_constants() {
    assert_eq!(WRAPPED_GLC_NAME, "Wrapped Goldcoin");
    assert_eq!(WRAPPED_GLC_SYMBOL, "wGLC");
}
