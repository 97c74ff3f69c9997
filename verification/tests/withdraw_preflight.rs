//! What a wallet refuses before it burns anything.

use glc_bridge::ops::withdraw_preflight::{check, WithdrawContext, WithdrawRefusal};
use glc_bridge::withdrawal::address::{base58check_encode, encode_p2pkh};

fn ok_ctx() -> WithdrawContext {
    WithdrawContext {
        paused: false,
        min_withdrawal: 1_000,
        mint_configured: true,
        balance: Some(50_00000000),
    }
}

fn good_address() -> String {
    encode_p2pkh(&[0x11; 20])
}

#[test]
fn a_sound_withdrawal_returns_the_decoded_destination() {
    let h = check(&ok_ctx(), 10_00000000, &good_address()).unwrap();
    assert_eq!(h, [0x11; 20]);
}

#[test]
fn a_malformed_address_is_refused_and_the_message_says_why_it_matters() {
    let err = check(&ok_ctx(), 10_00000000, "not-an-address").unwrap_err();
    let text = err.message();
    assert!(matches!(err, WithdrawRefusal::InvalidAddress { .. }));
    assert!(text.contains("Nothing was burned"), "{text}");
    assert!(
        text.contains("permanently"),
        "the message must say why this check exists: {text}"
    );
}

#[test]
fn an_address_with_a_bad_checksum_is_refused() {
    let mut a: Vec<char> = good_address().chars().collect();
    a[5] = if a[5] == 'A' { 'B' } else { 'A' };
    let typo: String = a.into_iter().collect();
    assert!(matches!(
        check(&ok_ctx(), 1_000, &typo).unwrap_err(),
        WithdrawRefusal::InvalidAddress { .. }
    ));
}

#[test]
fn an_address_the_payout_pipeline_would_reject_is_rejected_here_too() {
    let p2sh = base58check_encode(0x3a, &[0x22; 20]);
    assert!(matches!(
        check(&ok_ctx(), 1_000, &p2sh).unwrap_err(),
        WithdrawRefusal::InvalidAddress { .. }
    ));
}

#[test]
fn a_paused_bridge_is_reported_before_anything_about_the_request() {
    let ctx = WithdrawContext {
        paused: true,
        ..ok_ctx()
    };
    assert_eq!(
        check(&ctx, 0, "garbage").unwrap_err(),
        WithdrawRefusal::BridgePaused
    );
}

#[test]
fn an_unconfigured_mint_is_reported_first_of_all() {
    let ctx = WithdrawContext {
        mint_configured: false,
        paused: true,
        ..ok_ctx()
    };
    assert_eq!(
        check(&ctx, 1_000, &good_address()).unwrap_err(),
        WithdrawRefusal::MintNotConfigured
    );
}

#[test]
fn zero_is_refused_with_the_unit_explained() {
    let err = check(&ok_ctx(), 0, &good_address()).unwrap_err();
    assert_eq!(err, WithdrawRefusal::ZeroAmount);
    assert!(
        err.message().contains("100000000"),
        "a beginner needs the unit spelled out: {err:?}"
    );
}

#[test]
fn below_the_minimum_is_refused_and_states_the_minimum() {
    let err = check(&ok_ctx(), 999, &good_address()).unwrap_err();
    assert!(matches!(err, WithdrawRefusal::BelowMinimum { .. }));
    assert!(err.message().contains("1000"), "{err:?}");
}

#[test]
fn exactly_the_minimum_is_allowed() {
    assert!(check(&ok_ctx(), 1_000, &good_address()).is_ok());
}

#[test]
fn spending_the_whole_balance_is_allowed() {
    assert!(check(&ok_ctx(), 50_00000000, &good_address()).is_ok());
}

#[test]
fn one_atom_more_than_the_balance_is_refused_with_both_numbers() {
    let err = check(&ok_ctx(), 50_00000001, &good_address()).unwrap_err();
    let text = err.message();
    assert!(matches!(err, WithdrawRefusal::InsufficientBalance { .. }));
    assert!(
        text.contains("5000000000") && text.contains("5000000001"),
        "{text}"
    );
    assert!(text.contains("Nothing was burned"), "{text}");
}

#[test]
fn having_no_token_account_is_distinct_from_having_zero() {
    let none = WithdrawContext {
        balance: None,
        ..ok_ctx()
    };
    assert_eq!(
        check(&none, 1_000, &good_address()).unwrap_err(),
        WithdrawRefusal::NoTokenAccount
    );

    let zero = WithdrawContext {
        balance: Some(0),
        ..ok_ctx()
    };
    assert!(matches!(
        check(&zero, 1_000, &good_address()).unwrap_err(),
        WithdrawRefusal::InsufficientBalance { .. }
    ));
}

#[test]
fn every_refusal_tells_a_beginner_what_to_do() {
    for err in [
        WithdrawRefusal::BridgePaused,
        WithdrawRefusal::ZeroAmount,
        WithdrawRefusal::BelowMinimum {
            amount: 1,
            minimum: 2,
        },
        WithdrawRefusal::InsufficientBalance {
            balance: 1,
            amount: 2,
        },
        WithdrawRefusal::NoTokenAccount,
        WithdrawRefusal::InvalidAddress {
            address: "x".into(),
            reason: "bad".into(),
        },
        WithdrawRefusal::MintNotConfigured,
    ] {
        let t = err.message();
        assert!(t.len() > 40, "too terse to act on: {t}");
        assert!(
            t.contains('\n'),
            "each refusal explains as well as states: {t}"
        );
    }
}

