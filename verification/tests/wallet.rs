//! A user's withdrawal, step by step.

use glc_bridge::ops::wallet::{
    check_record, mismatch_message, read_amount, withdraw, Burn, Mismatch, WithdrawArgs, WithdrawEvent,
    WithdrawFailure, WithdrawStep, WithdrawalRecord, MAX_POLLS,
};
use glc_bridge::ops::withdraw_preflight::WithdrawRefusal;
use glc_bridge::solana::instruction::withdrawal_pda;
use glc_bridge::solana::pubkey::{token_account, Pubkey, ASSOCIATED_TOKEN_PROGRAM_ID};
use glc_bridge::solana::rpc::SolanaRpcError;
use glc_bridge::withdrawal::address::encode_p2pkh;

const MINT: [u8; 32] = [0x44; 32];

fn args() -> WithdrawArgs {
    WithdrawArgs {
        program_id: Pubkey::new_from_array([3; 32]),
        user: Pubkey::new_from_array([5; 32]),
        amount: 5_000,
        glc_address: encode_p2pkh(&[0x22; 20]),
    }
}

fn config_bytes(paused: bool, mint: [u8; 32]) -> Vec<u8> {
    let mut d = vec![0u8; 8];
    d.push(1);
    d.extend_from_slice(&[0x11; 32]);
    d.push(0);
    d.push(paused as u8);
    d.extend_from_slice(&9u64.to_le_bytes());
    d.extend_from_slice(&1_000u64.to_le_bytes());
    d.extend_from_slice(&2_000u64.to_le_bytes());
    d.push(0xFD);
    d.extend_from_slice(&mint);
    d.push(0xFE);
    d.extend_from_slice(&3_600i64.to_le_bytes());
    d.extend_from_slice(&21_000u64.to_le_bytes());
    d.extend_from_slice(&[0u8; 15]);
    d
}

fn after_config(paused: bool, mint: [u8; 32]) -> WithdrawStep {
    withdraw(
        &args(),
        WithdrawStep::ReadConfig,
        WithdrawEvent::Config(Some(config_bytes(paused, mint))),
    )
}

fn submitted() -> Burn {
    match withdraw(
        &args(),
        after_config(false, MINT),
        WithdrawEvent::Balance(Some(5_000)),
    ) {
        WithdrawStep::Submit(burn) => burn,
        other => panic!("expected a burn, got {other:?}"),
    }
}

fn record() -> WithdrawalRecord {
    WithdrawalRecord {
        index: 9,
        requester: args().user,
        amount_atomic: 5_000,
        glc_address: args().glc_address,
        glc_address_hash160: [0x22; 20],
    }
}

#[test]
fn the_token_account_is_the_associated_one() {
    let user = args().user;
    let mint = Pubkey::new_from_array(MINT);
    let sdk = |k: [u8; 32]| solana_sdk::pubkey::Pubkey::new_from_array(k);
    let (expected, _) = solana_sdk::pubkey::Pubkey::find_program_address(
        &[&user.bytes, &spl_token::ID.to_bytes(), &mint.bytes],
        &sdk(ASSOCIATED_TOKEN_PROGRAM_ID),
    );
    assert_eq!(
        ASSOCIATED_TOKEN_PROGRAM_ID,
        spl_associated_token_account::ID.to_bytes()
    );
    assert_eq!(
        token_account(&user, &mint),
        Some(Pubkey::new_from_array(expected.to_bytes()))
    );
    match after_config(false, MINT) {
        WithdrawStep::ReadBalance {
            config,
            user_token_account,
        } => {
            assert_eq!(config.withdrawal_count, 9);
            assert_eq!(user_token_account.bytes, expected.to_bytes());
        }
        other => panic!("expected the balance to be read, got {other:?}"),
    }
}

#[test]
fn a_withdrawal_that_passes_is_burned_to_the_address() {
    let burn = submitted();
    assert_eq!(burn.wrapped_mint.bytes, MINT);
    assert_eq!(burn.index, 9);
    assert_eq!(burn.dest_hash160, [0x22; 20]);
    assert_eq!(burn.withdrawal, withdrawal_pda(&args().program_id, 9).0);
}

#[test]
fn nothing_is_burned_where_a_check_refuses() {
    let refused = |step: WithdrawStep, balance: Option<u64>| match withdraw(
        &args(),
        step,
        WithdrawEvent::Balance(balance),
    ) {
        WithdrawStep::Done(Err(WithdrawFailure::Refused(why))) => why,
        other => panic!("expected a refusal, got {other:?}"),
    };
    assert_eq!(
        refused(after_config(true, MINT), Some(5_000)),
        WithdrawRefusal::BridgePaused
    );
    assert_eq!(
        refused(after_config(false, [0; 32]), Some(5_000)),
        WithdrawRefusal::MintNotConfigured
    );
    assert_eq!(
        refused(after_config(false, MINT), None),
        WithdrawRefusal::NoTokenAccount
    );
    assert_eq!(
        refused(after_config(false, MINT), Some(4_999)),
        WithdrawRefusal::InsufficientBalance {
            balance: 4_999,
            amount: 5_000
        }
    );
}

#[test]
fn a_missing_or_unreadable_bridge_ends_the_withdrawal() {
    assert_eq!(
        withdraw(
            &args(),
            WithdrawStep::ReadConfig,
            WithdrawEvent::Config(None)
        ),
        WithdrawStep::Done(Err(WithdrawFailure::NoBridge))
    );
    assert!(matches!(
        withdraw(
            &args(),
            WithdrawStep::ReadConfig,
            WithdrawEvent::Config(Some(vec![1, 2]))
        ),
        WithdrawStep::Done(Err(WithdrawFailure::UnreadableConfig(
            SolanaRpcError::Malformed(_)
        )))
    ));
}

#[test]
fn a_transaction_that_was_not_taken_burned_nothing() {
    assert_eq!(
        withdraw(
            &args(),
            WithdrawStep::Submit(submitted()),
            WithdrawEvent::Submitted(Err("blockhash expired".to_string()))
        ),
        WithdrawStep::Done(Err(WithdrawFailure::NotAccepted(
            "blockhash expired".to_string()
        )))
    );
}

#[test]
fn the_wait_for_a_record_ends() {
    let mut step = withdraw(
        &args(),
        WithdrawStep::Submit(submitted()),
        WithdrawEvent::Submitted(Ok(())),
    );
    let mut polls = 0;
    while let WithdrawStep::Poll { .. } = step {
        polls += 1;
        step = withdraw(&args(), step, WithdrawEvent::Polled(false));
        step = withdraw(&args(), step, WithdrawEvent::Woke);
    }
    assert_eq!(polls, MAX_POLLS);
    assert_eq!(step, WithdrawStep::Done(Err(WithdrawFailure::NoRecord)));
}

#[test]
fn success_is_reported_of_the_very_record_that_was_asked_for() {
    let step = withdraw(
        &args(),
        WithdrawStep::Poll {
            burn: submitted(),
            polls: 4,
        },
        WithdrawEvent::Polled(true),
    );
    assert_eq!(step, WithdrawStep::Decode(submitted()));
    assert_eq!(
        withdraw(
            &args(),
            step,
            WithdrawEvent::Decoded(Ok(record()))
        ),
        WithdrawStep::Done(Ok(record()))
    );
    assert_eq!(
        withdraw(
            &args(),
            WithdrawStep::Decode(submitted()),
            WithdrawEvent::Decoded(Err("short".to_string()))
        ),
        WithdrawStep::Done(Err(WithdrawFailure::UnreadableRecord("short".to_string())))
    );
}

#[test]
fn a_record_that_says_something_else_is_no_success() {
    let other = WithdrawalRecord {
        index: 10,
        requester: Pubkey::new_from_array([6; 32]),
        amount_atomic: 4_000,
        glc_address: "elsewhere".to_string(),
        glc_address_hash160: [0x23; 20],
    };
    let found = check_record(&other, &args(), &submitted());
    assert_eq!(found.len(), 5);
    let sdk = |b: u8| solana_sdk::pubkey::Pubkey::new_from_array([b; 32]).to_string();
    assert_eq!(
        mismatch_message(&found),
        format!(
            "the withdrawal was recorded but does NOT match what was requested:\
             \n  - amount is 4000 on chain, expected 5000\
             \n  - destination is \"elsewhere\" on chain, expected {:?}\
             \n  - the destination decodes to a different Goldcoin address\
             \n  - requester is {} on chain, expected {}\
             \n  - index is 10 on chain, expected 9",
            args().glc_address,
            sdk(6),
            sdk(5),
        )
    );
    assert_eq!(
        withdraw(
            &args(),
            WithdrawStep::Decode(submitted()),
            WithdrawEvent::Decoded(Ok(other))
        ),
        WithdrawStep::Done(Err(WithdrawFailure::Mismatch(found)))
    );
    assert_eq!(check_record(&record(), &args(), &submitted()), vec![]);
}

#[test]
fn a_quoted_destination_is_escaped() {
    assert_eq!(
        Mismatch::Destination {
            found: "a\"b\n".to_string(),
            expected: "c".to_string()
        }
        .message(),
        "destination is \"a\\\"b\\n\" on chain, expected \"c\""
    );
}

#[test]
fn an_amount_is_a_whole_number_of_atomic_units() {
    assert_eq!(read_amount("150000000"), Ok(150_000_000));
    for text in ["1.5", "", "-1", "18446744073709551616"] {
        assert_eq!(
            read_amount(text),
            Err("--amount-atomic must be a whole number of atomic units.\n1 GLC = 100000000, so 1.5 GLC is --amount-atomic 150000000.")
        );
    }
}
