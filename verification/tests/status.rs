//! What an operator is shown of the records.

use glc_bridge::ops::admin::AdminRefusal;
use glc_bridge::ops::status::{
    clear_deposit_halt, clear_withdrawal_halt, status, DepositSummary, StateCount, VaultStats,
    WithdrawalSummary,
};

fn counts(list: &[(&str, u64)]) -> Vec<StateCount> {
    list.iter()
        .map(|(state, count)| StateCount {
            state: state.to_string(),
            count: *count,
        })
        .collect()
}

const VAULT: VaultStats = VaultStats {
    outputs: 3,
    total_atomic: 900,
};

fn deposit(reason: Option<&str>) -> DepositSummary {
    DepositSummary {
        id: 7,
        state: "IntegrityHalted".to_string(),
        txid_hex: "ab".to_string(),
        vout: 1,
        amount_atomic: 50,
        failure_reason: reason.map(str::to_string),
    }
}

fn withdrawal(reason: Option<&str>) -> WithdrawalSummary {
    WithdrawalSummary {
        withdrawal_index: 4,
        state: "IntegrityHalted".to_string(),
        amount_atomic: 60,
        failure_reason: reason.map(str::to_string),
    }
}

#[test]
fn a_quiet_bridge_has_no_halts() {
    let text = status(
        &counts(&[("Minted", 12)]),
        &counts(&[("Completed", 5), ("AStateWithAVeryLongNameIndeed", 1)]),
        VAULT,
        &[],
        &[],
    );
    assert_eq!(
        text,
        format!(
            "deposits by state:\n  {:<20} 12\n\nwithdrawals by state:\n  {:<20} 5\n  {:<20} 1\n\nvault: 3 available outputs, 900 atomic units\n\nno integrity halts\n",
            "Minted", "Completed", "AStateWithAVeryLongNameIndeed"
        )
    );
}

#[test]
fn every_halt_is_shown_with_its_reason() {
    let text = status(&[], &[], VAULT, &[deposit(Some("claim differs"))], &[]);
    assert_eq!(
        text,
        "deposits by state:\n\nwithdrawals by state:\n\nvault: 3 available outputs, 900 atomic units\n\nHALTED DEPOSITS — each needs an explicit operator decision:\n  id=7 txid=ab vout=1 amount=50\n    reason: claim differs\n"
    );
    let text = status(&[], &[], VAULT, &[], &[withdrawal(None)]);
    assert!(text.ends_with(
        "\nHALTED WITHDRAWALS:\n  index=4 amount=60\n    reason: (none recorded)\n"
    ));
    assert!(!text.contains("no integrity halts"));
}

#[test]
fn a_record_is_shown_before_it_is_changed() {
    assert_eq!(
        clear_deposit_halt(7, &Some(deposit(None)), "Failed").unwrap(),
        "deposit 7: IntegrityHalted -> Failed\n  txid=ab vout=1 amount=50\n  halt reason: (none)"
    );
    assert_eq!(
        clear_withdrawal_halt(4, &Some(withdrawal(Some("why"))), "Validated").unwrap(),
        "withdrawal 4: IntegrityHalted -> Validated\n  amount=60\n  halt reason: why"
    );
}

#[test]
fn a_record_that_is_not_there_is_not_changed() {
    let e = clear_deposit_halt(7, &None, "Failed").unwrap_err();
    assert_eq!(e, AdminRefusal::NoDeposit(7));
    assert_eq!(e.message(), "no deposit with id 7");
    let e = clear_withdrawal_halt(-4, &None, "Failed").unwrap_err();
    assert_eq!(e.message(), "no withdrawal with index -4");
}
