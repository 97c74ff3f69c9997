//! Waiting for a transaction to land, to fail, or to be certain never to land.

use glc_bridge::solana::confirm::{
    confirm_transaction, ConfirmEvent, ConfirmFailure, ConfirmPolicy, ConfirmState, Signature,
};
use glc_bridge::solana::duration::Duration;
use glc_bridge::solana::rpc::SolanaRpcError;

fn sig() -> Signature {
    Signature { bytes: [7; 64] }
}

fn step(state: ConfirmState, event: ConfirmEvent) -> ConfirmState {
    confirm_transaction(state, event, &sig(), &ConfirmPolicy::default())
}

fn unseen() -> ConfirmEvent {
    ConfirmEvent::Status(Ok(None))
}

fn blockhash(valid: bool, waited_ms: u64) -> ConfirmEvent {
    ConfirmEvent::Blockhash {
        valid: Ok(valid),
        waited: Duration::from_millis(waited_ms),
    }
}

#[test]
fn the_policy_outlives_a_blockhash() {
    let p = ConfirmPolicy::default();
    assert_eq!(p.deadline, Duration::from_secs(90));
    assert_eq!(p.poll_interval, Duration::new(0, 500_000_000));
}

#[test]
fn an_observed_success_confirms() {
    assert_eq!(
        step(
            ConfirmState::AskStatus,
            ConfirmEvent::Status(Ok(Some(Ok(()))))
        ),
        ConfirmState::Done(Ok(()))
    );
}

#[test]
fn a_rejection_carries_its_reason() {
    assert_eq!(
        step(
            ConfirmState::AskStatus,
            ConfirmEvent::Status(Ok(Some(Err("custom error 0x1".to_string()))))
        ),
        ConfirmState::Done(Err(ConfirmFailure::Rejected {
            signature: sig(),
            reason: "custom error 0x1".to_string()
        }))
    );
}

#[test]
fn an_unseen_transaction_is_polled_while_its_blockhash_lives() {
    let s = step(ConfirmState::AskStatus, unseen());
    assert_eq!(s, ConfirmState::AskBlockhash);
    let s = step(s, blockhash(true, 89_999));
    assert_eq!(s, ConfirmState::Sleep);
    assert_eq!(step(s, ConfirmEvent::Woke), ConfirmState::AskStatus);
}

#[test]
fn the_status_is_read_once_more_before_expiry_is_declared() {
    let s = step(ConfirmState::AskBlockhash, blockhash(false, 10));
    assert_eq!(s, ConfirmState::AskStatusAgain);
    assert_eq!(
        step(s, ConfirmEvent::Status(Ok(Some(Ok(()))))),
        ConfirmState::Done(Ok(()))
    );
    assert_eq!(
        step(ConfirmState::AskStatusAgain, unseen()),
        ConfirmState::Done(Err(ConfirmFailure::Expired { signature: sig() }))
    );
}

#[test]
fn a_node_that_never_answers_runs_into_the_deadline() {
    assert_eq!(
        step(ConfirmState::AskBlockhash, blockhash(true, 90_000)),
        ConfirmState::Done(Err(ConfirmFailure::TimedOut {
            signature: sig(),
            waited: Duration::from_secs(90)
        }))
    );
}

#[test]
fn an_unreachable_node_leaves_the_outcome_unknown() {
    let down = || SolanaRpcError::Transport("down".to_string());
    assert_eq!(
        step(ConfirmState::AskStatus, ConfirmEvent::Status(Err(down()))),
        ConfirmState::Done(Err(ConfirmFailure::Rpc {
            signature: sig(),
            source: down()
        }))
    );
    assert_eq!(
        step(
            ConfirmState::AskBlockhash,
            ConfirmEvent::Blockhash {
                valid: Err(down()),
                waited: Duration::from_secs(0)
            }
        ),
        ConfirmState::Done(Err(ConfirmFailure::Rpc {
            signature: sig(),
            source: down()
        }))
    );
}

#[test]
fn an_outcome_stays() {
    assert_eq!(
        step(ConfirmState::Done(Ok(())), unseen()),
        ConfirmState::Done(Ok(()))
    );
}

#[test]
fn a_wait_is_kept_and_shown_to_the_nanosecond() {
    let just_short = Duration::new(89, 999_999_999);
    assert_eq!(just_short.as_secs(), 89);
    assert_eq!(just_short.subsec_nanos(), 999_999_999);
    assert!(!just_short.at_least(&Duration::from_secs(90)));
    assert!(Duration::new(90, 1).at_least(&Duration::from_secs(90)));
    let at = |waited: Duration| ConfirmEvent::Blockhash {
        valid: Ok(true),
        waited,
    };
    assert_eq!(
        step(ConfirmState::AskBlockhash, at(just_short)),
        ConfirmState::Sleep
    );
    let waited = Duration::new(90, 1_500_000);
    let failure = ConfirmFailure::TimedOut {
        signature: sig(),
        waited,
    };
    assert!(failure.message().contains(" within 90.0015s; its outcome is UNKNOWN"));
    assert_eq!(
        step(ConfirmState::AskBlockhash, at(waited)),
        ConfirmState::Done(Err(failure))
    );
    assert_eq!(Duration::from_millis(1_500), Duration::new(1, 500_000_000));
    assert_eq!(Duration::from_millis(1_500).show(), "1.5s");
}
