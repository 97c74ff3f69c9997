//! Decoding the bridge's accounts.

use glc_bridge::solana::instruction::Pubkey;
use glc_bridge::solana::rpc::{
    classify_client_error,
    decode_bridge_config, decode_pending_action, decode_token_metadata, decode_validator_set,
    retry_delay_ms, PendingActionSnapshot, SolanaRpcError,
};

fn unique() -> Pubkey {
    Pubkey::new_from_array(solana_sdk::pubkey::Pubkey::new_unique().to_bytes())
}

fn metadata_bytes(name: &str, symbol: &str, uri: &str) -> Vec<u8> {
    let mut d = vec![4u8];
    d.extend_from_slice(&[0x11; 32]);
    d.extend_from_slice(&[0x22; 32]);
    for (s, cap) in [(name, 32usize), (symbol, 10), (uri, 200)] {
        let mut padded = s.as_bytes().to_vec();
        padded.resize(cap, 0);
        d.extend_from_slice(&(cap as u32).to_le_bytes());
        d.extend_from_slice(&padded);
    }
    d
}

#[test]
fn decodes_metadata_and_strips_metaplexs_nul_padding() {
    let d = metadata_bytes("Wrapped Goldcoin", "wGLC", "https://x.invalid/a.json");
    let m = decode_token_metadata(&d).unwrap();
    assert_eq!(m.name, "Wrapped Goldcoin");
    assert_eq!(m.symbol, "wGLC");
    assert_eq!(m.uri, "https://x.invalid/a.json");
    assert_eq!(m.update_authority, Pubkey::new_from_array([0x11; 32]));
    assert_eq!(m.mint, Pubkey::new_from_array([0x22; 32]));
}

#[test]
fn an_empty_uri_decodes_as_empty_not_as_padding() {
    let m = decode_token_metadata(&metadata_bytes("Wrapped Goldcoin", "wGLC", "")).unwrap();
    assert!(m.uri.is_empty(), "got {:?}", m.uri);
}

#[test]
fn a_wrong_name_survives_decoding_so_the_caller_can_report_it() {
    let m = decode_token_metadata(&metadata_bytes("Something Else", "XXX", "")).unwrap();
    assert_eq!(m.name, "Something Else");
    assert_eq!(m.symbol, "XXX");
}

#[test]
fn a_truncated_metadata_account_is_an_error_rather_than_panicking() {
    let full = metadata_bytes("Wrapped Goldcoin", "wGLC", "u");
    for cut in [0, 1, 32, 64, 70, 100] {
        assert!(
            decode_token_metadata(&full[..cut.min(full.len())]).is_err(),
            "a {cut}-byte account must not decode"
        );
    }
}

fn bridge_config_bytes(pending: Option<Pubkey>, mint: Pubkey, cap: u64) -> Vec<u8> {
    let mut d = vec![0u8; 8];
    d.push(1);
    d.extend_from_slice(&[0x11; 32]);
    match pending {
        None => d.push(0),
        Some(p) => {
            d.push(1);
            d.extend_from_slice(&p.bytes);
        }
    }
    d.push(1);
    d.extend_from_slice(&9u64.to_le_bytes());
    d.extend_from_slice(&1_000u64.to_le_bytes());
    d.extend_from_slice(&2_000u64.to_le_bytes());
    d.push(0xFD);
    d.extend_from_slice(&mint.bytes);
    d.push(0xFE);
    d.extend_from_slice(&3_600i64.to_le_bytes());
    d.extend_from_slice(&cap.to_le_bytes());
    d.extend_from_slice(&[0u8; 15]);
    d
}

#[test]
fn decodes_a_config_with_no_handover_pending() {
    let mint = unique();
    let c = decode_bridge_config(&bridge_config_bytes(None, mint, 21_000)).unwrap();
    assert_eq!(c.protocol_version, 1);
    assert_eq!(c.pending_admin, None);
    assert!(c.paused);
    assert_eq!(c.min_deposit, 1_000);
    assert_eq!(c.min_withdrawal, 2_000);
    assert_eq!(c.wrapped_mint, mint);
    assert_eq!(c.governance_timelock_seconds, 3_600);
    assert_eq!(c.max_wrapped_supply, 21_000);
    assert!(c.mint_is_configured());
}

#[test]
fn a_pending_handover_shifts_every_later_field_by_32_bytes() {
    let pending = unique();
    let mint = unique();
    let c = decode_bridge_config(&bridge_config_bytes(Some(pending), mint, 21_000)).unwrap();
    assert_eq!(c.pending_admin, Some(pending));
    assert_eq!(
        c.wrapped_mint, mint,
        "the mint must not be read from the wrong offset"
    );
    assert_eq!(c.max_wrapped_supply, 21_000);
    assert_eq!(c.governance_timelock_seconds, 3_600);
}

#[test]
fn an_uncreated_mint_is_visible_as_such() {
    let c = decode_bridge_config(&bridge_config_bytes(None, Pubkey::default(), 1)).unwrap();
    assert!(!c.mint_is_configured());
}

#[test]
fn an_invalid_option_tag_is_an_error_rather_than_a_guess() {
    let mut d = bridge_config_bytes(None, unique(), 1);
    d[8 + 33] = 7;
    assert!(decode_bridge_config(&d).is_err());
}

#[test]
fn a_truncated_config_is_an_error_rather_than_panicking() {
    let full = bridge_config_bytes(Some(unique()), unique(), 1);
    for cut in [0, 8, 20, 40, 70, 90] {
        assert!(
            decode_bridge_config(&full[..cut.min(full.len())]).is_err(),
            "a {cut}-byte account must not decode"
        );
    }
}

fn pending_action_bytes(
    action: u8,
    epoch: u64,
    eta: i64,
    threshold: u8,
    validators: &[Pubkey],
    new_max: u64,
) -> Vec<u8> {
    let mut d = vec![0u8; 8];
    d.push(action);
    d.extend_from_slice(&epoch.to_le_bytes());
    d.extend_from_slice(&eta.to_le_bytes());
    d.push(threshold);
    d.extend_from_slice(&(validators.len() as u32).to_le_bytes());
    for v in validators {
        d.extend_from_slice(&v.bytes);
    }
    d.push(0xFE);
    d.extend_from_slice(&new_max.to_le_bytes());
    d.extend_from_slice(&[0u8; 24]);
    d
}

#[test]
fn decodes_a_pending_rotation() {
    let v1 = unique();
    let v2 = unique();
    let data = pending_action_bytes(0x03, 9, 1_800_000_000, 2, &[v1, v2], 0);
    assert_eq!(
        decode_pending_action(&data).unwrap(),
        PendingActionSnapshot {
            action: 0x03,
            proposed_under_epoch: 9,
            eta: 1_800_000_000,
            threshold: 2,
            validators: vec![v1, v2],
            proposed_max_wrapped_supply: 0,
        }
    );
}

#[test]
fn decodes_a_pending_cap_raise_whose_validator_list_is_empty() {
    let data = pending_action_bytes(0x05, 4, 123, 0, &[], 21_000_000_000_000);
    let got = decode_pending_action(&data).unwrap();
    assert_eq!(got.action, 0x05);
    assert_eq!(got.proposed_max_wrapped_supply, 21_000_000_000_000);
    assert!(got.validators.is_empty());
}

#[test]
fn the_eta_round_trips_exactly_because_a_cancel_commits_to_it() {
    for eta in [0i64, 1, -1, i64::MIN, i64::MAX, 1_800_000_000] {
        let data = pending_action_bytes(0x03, 1, eta, 1, &[unique()], 0);
        assert_eq!(decode_pending_action(&data).unwrap().eta, eta);
    }
}

#[test]
fn a_truncated_pending_action_is_an_error_rather_than_a_guess() {
    let full = pending_action_bytes(0x03, 1, 2, 1, &[unique()], 0);
    for cut in [0, 4, 8, 12, 20, 30, 50] {
        assert!(
            decode_pending_action(&full[..cut.min(full.len())]).is_err(),
            "a {cut}-byte account must not decode"
        );
    }
    let mut lying = full.clone();
    lying[8 + 18..8 + 22].copy_from_slice(&9_999u32.to_le_bytes());
    assert!(decode_pending_action(&lying).is_err());
}

#[test]
fn decodes_validator_set_account_layout() {
    let v1 = unique();
    let v2 = unique();
    let mut data = vec![0u8; 8];
    data.extend_from_slice(&42u64.to_le_bytes());
    data.push(2);
    data.push(0xFF);
    data.extend_from_slice(&2u32.to_le_bytes());
    data.extend_from_slice(&v1.bytes);
    data.extend_from_slice(&v2.bytes);
    data.extend_from_slice(&[0u8; 32]);

    let snapshot = decode_validator_set(&data).unwrap();
    assert_eq!(snapshot.epoch, 42);
    assert_eq!(snapshot.threshold, 2);
    assert_eq!(snapshot.validators, vec![v1, v2]);
}

#[test]
fn decodes_empty_validator_set_account() {
    let mut data = vec![0u8; 8];
    data.extend_from_slice(&0u64.to_le_bytes());
    data.push(0);
    data.push(0);
    data.extend_from_slice(&0u32.to_le_bytes());
    data.extend_from_slice(&[0u8; 32]);
    let snapshot = decode_validator_set(&data).unwrap();
    assert!(snapshot.validators.is_empty());
}

#[test]
fn rejects_truncated_account_data() {
    let data = vec![0u8; 10];
    assert!(matches!(
        decode_validator_set(&data).unwrap_err(),
        SolanaRpcError::Malformed(_)
    ));
}

#[test]
fn transport_error_is_retriable_method_error_is_not() {
    assert!(SolanaRpcError::Transport("x".into()).is_retriable());
    assert!(!SolanaRpcError::Method("x".into()).is_retriable());
    assert!(!SolanaRpcError::Malformed("x".into()).is_retriable());
}

/// Calls until it works or the error stands, and says how often it called.
fn call_until_settled(max_attempts: u32, replies: &[Result<i32, SolanaRpcError>]) -> (bool, u32) {
    let mut attempt = 0;
    loop {
        match &replies[attempt as usize] {
            Ok(_) => return (true, attempt + 1),
            Err(e) => match retry_delay_ms(e, attempt, max_attempts) {
                Some(_) => attempt += 1,
                None => return (false, attempt + 1),
            },
        }
    }
}

#[test]
fn call_with_retry_retries_transport_and_gives_up_on_method_error() {
    let blip = [Err(SolanaRpcError::Transport("blip".into())), Ok(7)];
    assert_eq!(call_until_settled(3, &blip), (true, 2));

    let nope = [Err(SolanaRpcError::Method("nope".into()))];
    assert_eq!(call_until_settled(5, &nope), (false, 1));
}

#[test]
fn the_wait_between_calls_doubles_and_ends_with_the_attempts() {
    let e = SolanaRpcError::Transport("down".into());
    assert_eq!(retry_delay_ms(&e, 0, 4), Some(200));
    assert_eq!(retry_delay_ms(&e, 1, 4), Some(400));
    assert_eq!(retry_delay_ms(&e, 2, 4), Some(800));
    assert_eq!(retry_delay_ms(&e, 3, 4), None);
    assert_eq!(retry_delay_ms(&e, 0, 1), None);
    assert_eq!(retry_delay_ms(&e, 0, 0), None);
}

#[test]
fn an_rpc_error_names_its_cause() {
    assert_eq!(
        SolanaRpcError::Transport("x".into()).message(),
        "transport error contacting Solana RPC: x"
    );
    assert_eq!(
        SolanaRpcError::Method("x".into()).message(),
        "Solana RPC returned an error: x"
    );
    assert_eq!(
        SolanaRpcError::Malformed("x".into()).message(),
        "malformed account data: x"
    );
    assert!(classify_client_error(true, "io".to_string()).is_retriable());
    assert!(!classify_client_error(false, "rpc".to_string()).is_retriable());
}
