//! Arguments, the environment, and what the services do after a pass.

use glc_bridge::ops::arguments::{arg, require, require_note, ArgumentError};
use glc_bridge::ops::config::{RollingWindow, ValueCaps};
use glc_bridge::ops::environment::{ConfigError, Environment, NumberKind};
use glc_bridge::ops::services::{
    is_worth_a_line, run_completion_loop, run_indexer_loop, run_orchestrator_loop,
    run_withdrawal_loop, withdrawal_tick, AfterTick, IndexerNews, IndexerTick, PassEvent, PassStep,
    Reorg, ServiceTick, HALTED_SLEEP_MS,
};
use glc_bridge::solana::pubkey::Pubkey;
use glc_bridge::solana::rpc::SolanaRpcError;
use glc_bridge::text::NumberError;
use glc_bridge::withdrawal::executor::{ExecutorError, WithdrawalTickReport};

fn args(list: &[&str]) -> Vec<String> {
    list.iter().map(|a| a.to_string()).collect()
}

#[test]
fn an_argument_is_what_follows_its_name() {
    let a = args(&["--amount", "5", "--note", "why", "--amount", "6"]);
    assert_eq!(arg(&a, "--amount"), Some("5".to_string()));
    assert_eq!(arg(&a, "--note"), Some("why".to_string()));
    assert_eq!(arg(&a, "--other"), None);
    assert_eq!(arg(&args(&["--amount"]), "--amount"), None);
    assert_eq!(arg(&[], "--amount"), None);
}

#[test]
fn a_missing_argument_is_named() {
    let e = require(&args(&["x"]), "--index").unwrap_err();
    assert_eq!(e, ArgumentError::Missing("--index".to_string()));
    assert_eq!(e.message(), "error: --index is required");
    assert_eq!(
        require(&args(&["--index", "4"]), "--index"),
        Ok("4".to_string())
    );
}

#[test]
fn an_action_needs_a_reason() {
    assert_eq!(
        require_note(&args(&["--note", " rotate keys "])),
        Ok(" rotate keys ".to_string())
    );
    assert_eq!(
        require_note(&args(&["--note", " \t"])),
        Err(ArgumentError::EmptyNote)
    );
    assert_eq!(
        require_note(&[]),
        Err(ArgumentError::Missing("--note".to_string()))
    );
    assert_eq!(
        ArgumentError::EmptyNote.message(),
        "error: --note must not be empty — every operator action is audited"
    );
}

const INDEXER: [(&str, &str); 12] = [
    ("GLC_RPC_URL", "http://node"),
    ("GLC_RPC_USER", "u"),
    ("GLC_RPC_PASSWORD", "p"),
    ("GLC_DB_PATH", "/db"),
    ("GLC_VAULT_SCRIPT_PUBKEY_HEX", "a914"),
    ("GLC_CONFIRMATION_DEPTH", "6"),
    ("GLC_MAX_REORG_DEPTH", "100"),
    ("GLC_PROTOCOL_VERSION", "1"),
    ("GLC_PROGRAM_ID_HEX", "01"),
    ("GLC_VALIDATOR_EPOCH", "3"),
    ("GLC_WRAPPED_MINT_HEX", "02"),
    ("GLC_POLL_INTERVAL_MS", "250"),
];

fn environment(vars: &[(&str, &str)]) -> Environment {
    Environment {
        vars: vars
            .iter()
            .map(|(n, v)| (n.to_string(), v.to_string()))
            .collect(),
    }
}

fn with(extra: &[(&str, &str)]) -> Environment {
    let mut vars: Vec<(&str, &str)> = extra.to_vec();
    vars.extend_from_slice(&INDEXER);
    environment(&vars)
}

fn without(name: &str) -> Environment {
    let vars: Vec<(&str, &str)> = INDEXER
        .iter()
        .filter(|(n, _)| *n != name)
        .copied()
        .collect();
    environment(&vars)
}

#[test]
fn the_indexer_reads_its_configuration() {
    let c = with(&[]).config_from_env().unwrap();
    assert_eq!(c.rpc.url, "http://node");
    assert_eq!(c.rpc.user, "u");
    assert_eq!(c.rpc.password, "p");
    assert_eq!(c.rpc.connect_timeout_ms, 5_000);
    assert_eq!(c.rpc.read_timeout_ms, 30_000);
    assert_eq!(c.db_path, "/db");
    assert_eq!(c.confirmation_depth, 6);
    assert_eq!(c.max_reorg_depth, 100);
    assert_eq!(c.min_deposit_atomic, 0);
    assert_eq!(c.protocol_version, 1);
    assert_eq!(c.validator_epoch, 3);
    assert_eq!(c.node_unavailable_retry_interval_ms, 5_000);
    assert_eq!(c.poll_interval_ms, 250);
    assert_eq!(
        c.value_caps,
        ValueCaps {
            max_deposit_atomic: None,
            rolling_window: None
        }
    );
}

#[test]
fn a_decision_about_exposure_has_no_default() {
    for name in [
        "GLC_CONFIRMATION_DEPTH",
        "GLC_MAX_REORG_DEPTH",
        "GLC_PROTOCOL_VERSION",
        "GLC_VALIDATOR_EPOCH",
        "GLC_DB_PATH",
    ] {
        let e = without(name).config_from_env().unwrap_err();
        assert_eq!(e, ConfigError::Missing(name.to_string()));
        assert_eq!(
            e.message(),
            format!("required environment variable {name} is not set")
        );
    }
    assert_eq!(
        without("GLC_POLL_INTERVAL_MS")
            .config_from_env()
            .unwrap()
            .poll_interval_ms,
        1_000
    );
}

#[test]
fn the_value_caps_are_read_where_they_are_stated() {
    let c = with(&[
        ("GLC_MAX_DEPOSIT_ATOMIC", "500"),
        ("GLC_ROLLING_WINDOW_SECONDS", "3600"),
        ("GLC_ROLLING_WINDOW_CAP_ATOMIC", "9000"),
    ])
    .config_from_env()
    .unwrap();
    assert_eq!(c.value_caps.max_deposit_atomic, Some(500));
    assert_eq!(
        c.value_caps.rolling_window,
        Some(RollingWindow {
            window_seconds: 3_600,
            cap_atomic: 9_000
        })
    );
}

#[test]
fn half_a_rolling_window_is_refused() {
    for half in ["GLC_ROLLING_WINDOW_SECONDS", "GLC_ROLLING_WINDOW_CAP_ATOMIC"] {
        let e = with(&[(half, "1")]).config_from_env().unwrap_err();
        assert_eq!(e, ConfigError::HalfAWindow);
        assert_eq!(
            e.message(),
            "GLC_ROLLING_WINDOW_SECONDS and GLC_ROLLING_WINDOW_CAP_ATOMIC must be set together"
        );
    }
}

#[test]
fn a_number_that_is_none_is_refused_with_its_reason() {
    let cases = [
        (
            "GLC_PROTOCOL_VERSION",
            "256",
            NumberKind::U8,
            NumberError::TooLarge,
            "GLC_PROTOCOL_VERSION must be a u8: number too large to fit in target type",
        ),
        (
            "GLC_CONFIRMATION_DEPTH",
            "6x",
            NumberKind::U32,
            NumberError::InvalidDigit,
            "GLC_CONFIRMATION_DEPTH must be a u32: invalid digit found in string",
        ),
        (
            "GLC_VALIDATOR_EPOCH",
            "",
            NumberKind::U64,
            NumberError::Empty,
            "GLC_VALIDATOR_EPOCH must be a u64: cannot parse integer from empty string",
        ),
    ];
    for (name, value, kind, why, message) in cases {
        let e = with(&[(name, value)]).config_from_env().unwrap_err();
        assert_eq!(
            e,
            ConfigError::NotANumber {
                name: name.to_string(),
                kind,
                why
            }
        );
        assert_eq!(e.message(), message);
    }
}

#[test]
fn the_solana_side_takes_the_program_it_is_given() {
    let env = environment(&[
        ("GLC_SOLANA_RPC_URL", "http://s"),
        ("GLC_SOLANA_SUBMITTER_KEYPAIR_PATH", "/k"),
        ("GLC_SOLANA_COMMITMENT", "finalized"),
    ]);
    let id = Pubkey::new_from_array([7; 32]);
    let c = env.solana_config_from_env(&id).unwrap();
    assert_eq!(
        c.program_id,
        solana_sdk::pubkey::Pubkey::new_from_array([7; 32]).to_string()
    );
    assert_eq!(c.rpc_url, "http://s");
    assert_eq!(c.submitter_keypair_path, "/k");
    assert_eq!(c.commitment, "finalized");
    assert_eq!(c.poll_interval_ms, 2_000);
    assert_eq!(
        environment(&[]).solana_config_from_env(&id),
        Err(ConfigError::Missing("GLC_SOLANA_RPC_URL".to_string()))
    );
}

const WITHDRAWALS: [(&str, &str); 10] = [
    ("GLC_VAULT_REDEEM_SCRIPT_HEX", "52"),
    ("GLC_VAULT_ADDRESS", "Qv"),
    ("GLC_VAULT_CHANGE_ADDRESS", "Qc"),
    ("GLC_PAYOUT_FEE_RATE_PER_KB", "10000"),
    ("GLC_PAYOUT_DUST_THRESHOLD_ATOMIC", "5400"),
    ("GLC_VAULT_MIN_CONFIRMATIONS", "1"),
    ("GLC_WITHDRAWAL_CONFIRMATION_DEPTH", "6"),
    ("GLC_PAYOUT_MAX_INPUTS", "20"),
    ("GLC_PAYOUT_RESERVATION_TIMEOUT_SECS", "900"),
    ("GLC_WITHDRAWAL_DISCOVERY_COMMITMENT", "finalized"),
];

/// The withdrawal settings, with some of them replaced or added.
fn vault_environment(extra: &[(&str, &str)]) -> Environment {
    let mut vars: Vec<(&str, &str)> = extra.to_vec();
    vars.extend_from_slice(&WITHDRAWALS);
    environment(&vars)
}

#[test]
fn a_withdrawal_setting_that_does_not_fit_is_refused() {
    let largest = vault_environment(&[("GLC_VAULT_MIN_CONFIRMATIONS", "9223372036854775807")]);
    assert_eq!(
        largest
            .withdrawal_config_from_env()
            .unwrap()
            .vault_min_confirmations,
        i64::MAX
    );
    for name in [
        "GLC_VAULT_MIN_CONFIRMATIONS",
        "GLC_WITHDRAWAL_CONFIRMATION_DEPTH",
        "GLC_PAYOUT_RESERVATION_TIMEOUT_SECS",
    ] {
        let e = vault_environment(&[(name, "9223372036854775808")])
            .withdrawal_config_from_env()
            .unwrap_err();
        assert_eq!(
            e.message(),
            format!("{name} must be a i64: number too large to fit in target type")
        );
        let e = vault_environment(&[(name, "18446744073709551616")])
            .withdrawal_config_from_env()
            .unwrap_err();
        assert_eq!(
            e.message(),
            format!("{name} must be a u64: number too large to fit in target type")
        );
        let e = vault_environment(&[(name, "-1")])
            .withdrawal_config_from_env()
            .unwrap_err();
        assert_eq!(
            e.message(),
            format!("{name} must be a u64: invalid digit found in string")
        );
    }
}

#[test]
fn the_operators_tool_reads_the_vault_more_plainly() {
    let c = vault_environment(&[
        ("GLC_VAULT_MIN_CONFIRMATIONS", "-9223372036854775808"),
        ("GLC_WITHDRAWAL_CONFIRMATION_DEPTH", "-3"),
        ("GLC_PAYOUT_RESERVATION_TIMEOUT_SECS", "+900"),
        ("GLC_WITHDRAWAL_POLL_INTERVAL_MS", "not read"),
    ])
    .admin_withdrawal_config_from_env()
    .unwrap();
    assert_eq!(c.vault_min_confirmations, i64::MIN);
    assert_eq!(c.confirmation_depth, -3);
    assert_eq!(c.reservation_timeout_secs, 900);
    assert_eq!(c.poll_interval_ms, 5_000);
    assert_eq!(
        vault_environment(&[])
            .admin_withdrawal_config_from_env()
            .unwrap(),
        vault_environment(&[]).withdrawal_config_from_env().unwrap()
    );
    for (value, why) in [
        ("", "cannot parse integer from empty string"),
        ("-", "invalid digit found in string"),
        ("+", "invalid digit found in string"),
        ("1x", "invalid digit found in string"),
        ("-9x", "invalid digit found in string"),
        (
            "9223372036854775808",
            "number too large to fit in target type",
        ),
        (
            "-9223372036854775809",
            "number too small to fit in target type",
        ),
    ] {
        let e = vault_environment(&[("GLC_WITHDRAWAL_CONFIRMATION_DEPTH", value)])
            .admin_withdrawal_config_from_env()
            .unwrap_err();
        assert_eq!(e.message(), why, "{value}");
        assert_eq!(e.message(), value.parse::<i64>().unwrap_err().to_string());
    }
    let e = vault_environment(&[("GLC_PAYOUT_FEE_RATE_PER_KB", "-1")])
        .admin_withdrawal_config_from_env()
        .unwrap_err();
    assert_eq!(e, ConfigError::BadNumber(NumberError::InvalidDigit));
    for (name, _) in WITHDRAWALS {
        let rest: Vec<(&str, &str)> = WITHDRAWALS
            .iter()
            .filter(|(n, _)| *n != name)
            .copied()
            .collect();
        assert_eq!(
            environment(&rest).admin_withdrawal_config_from_env(),
            Err(ConfigError::Missing(name.to_string()))
        );
    }
}

#[test]
fn the_operators_tool_reads_its_node_and_version() {
    let c = with(&[("GLC_RPC_READ_TIMEOUT_MS", "1")])
        .goldcoin_rpc_from_env()
        .unwrap();
    assert_eq!(c.url, "http://node");
    assert_eq!(c.user, "u");
    assert_eq!(c.password, "p");
    assert_eq!((c.connect_timeout_ms, c.read_timeout_ms), (5_000, 30_000));
    for name in ["GLC_RPC_URL", "GLC_RPC_USER", "GLC_RPC_PASSWORD"] {
        assert_eq!(
            without(name).goldcoin_rpc_from_env(),
            Err(ConfigError::Missing(name.to_string()))
        );
    }
    assert_eq!(with(&[]).admin_protocol_version_from_env(), Ok(1));
    let e = with(&[("GLC_PROTOCOL_VERSION", "256")])
        .admin_protocol_version_from_env()
        .unwrap_err();
    assert_eq!(e.message(), "number too large to fit in target type");
}

#[test]
fn the_withdrawal_side_states_every_setting() {
    let vars = WITHDRAWALS;
    let c = environment(&vars).withdrawal_config_from_env().unwrap();
    assert_eq!(c.vault_redeem_script_hex, "52");
    assert_eq!(c.change_address, "Qc");
    assert_eq!(c.fee_rate_per_kb, 10_000);
    assert_eq!(c.dust_threshold_atomic, 5_400);
    assert_eq!(c.vault_min_confirmations, 1);
    assert_eq!(c.confirmation_depth, 6);
    assert_eq!(c.max_inputs_per_payout, 20);
    assert_eq!(c.reservation_timeout_secs, 900);
    assert_eq!(c.poll_interval_ms, 5_000);
    for (name, _) in vars {
        let rest: Vec<(&str, &str)> = vars.iter().filter(|(n, _)| *n != name).copied().collect();
        assert_eq!(
            environment(&rest).withdrawal_config_from_env(),
            Err(ConfigError::Missing(name.to_string()))
        );
    }
}

#[test]
fn the_protocol_version_is_read_on_its_own() {
    assert_eq!(with(&[]).protocol_version_from_env(), Ok(1));
    assert_eq!(
        environment(&[]).protocol_version_from_env(),
        Err(ConfigError::Missing("GLC_PROTOCOL_VERSION".to_string()))
    );
    assert_eq!(
        environment(&[("A", "+7")]).env_required_u64("A"),
        Ok(7),
        "a plus sign is accepted"
    );
    assert_eq!(environment(&[]).env_optional_u64("A", 4), Ok(4));
    assert_eq!(
        environment(&[("A", "v")]).env_required("A"),
        Ok("v".to_string())
    );
    assert_eq!(environment(&[("A", "v")]).get("B"), None);
}

#[test]
fn the_indexer_publishes_the_depth_of_a_reorganisation() {
    let reorg = Reorg {
        fork_height: 95,
        old_tip_height: 100,
        orphaned_count: 3,
    };
    assert_eq!(
        run_indexer_loop(IndexerTick::Progressed { reorg: Some(reorg) }, 10, 20),
        (
            IndexerNews::Ticked {
                reorg_depth: Some(5)
            },
            AfterTick::Sleep(10)
        )
    );
    assert_eq!(
        run_indexer_loop(IndexerTick::Progressed { reorg: None }, 10, 20),
        (
            IndexerNews::Ticked { reorg_depth: None },
            AfterTick::Sleep(10)
        )
    );
}

#[test]
fn only_a_lost_database_ends_a_service() {
    assert_eq!(
        run_indexer_loop(IndexerTick::Db, 10, 20),
        (IndexerNews::Nothing, AfterTick::Exit)
    );
    assert_eq!(
        run_indexer_loop(IndexerTick::NodeUnavailable, 10, 20),
        (IndexerNews::Nothing, AfterTick::Sleep(20))
    );
    assert_eq!(
        run_indexer_loop(IndexerTick::Rpc, 10, 20),
        (IndexerNews::Nothing, AfterTick::Sleep(10))
    );
    assert_eq!(
        run_indexer_loop(IndexerTick::Halted { attempted_depth: 7 }, 10, 20),
        (
            IndexerNews::Halted { attempted_depth: 7 },
            AfterTick::Sleep(HALTED_SLEEP_MS)
        )
    );
    for tick in [
        ServiceTick::Done,
        ServiceTick::NodeUnavailable,
        ServiceTick::Other,
    ] {
        assert_eq!(run_orchestrator_loop(tick, 10), AfterTick::Sleep(10));
        assert_eq!(run_completion_loop(tick, 10), AfterTick::Sleep(10));
    }
    assert_eq!(run_orchestrator_loop(ServiceTick::Db, 10), AfterTick::Exit);
    assert_eq!(run_completion_loop(ServiceTick::Db, 10), AfterTick::Exit);
    assert_eq!(
        run_withdrawal_loop(&Err(ExecutorError::Db("x".to_string())), 10),
        AfterTick::Exit
    );
    assert_eq!(
        run_withdrawal_loop(&Err(ExecutorError::Verify("x".to_string())), 10),
        AfterTick::Sleep(10)
    );
    assert_eq!(
        run_withdrawal_loop(&Ok(WithdrawalTickReport::default()), 10),
        AfterTick::Sleep(10)
    );
}

#[test]
fn a_pass_without_news_is_not_logged() {
    let quiet = WithdrawalTickReport::default();
    assert!(!is_worth_a_line(&quiet));
    for field in 0..4 {
        let mut report = WithdrawalTickReport::default();
        match field {
            0 => report.completed = 1,
            1 => report.signed = 1,
            2 => report.halted = 1,
            _ => report.failed = 1,
        }
        assert!(is_worth_a_line(&report));
    }
}

#[test]
fn known_withdrawals_are_driven_though_the_scan_failed() {
    let down = SolanaRpcError::Transport("down".to_string());
    let step = withdrawal_tick(PassStep::Scan, PassEvent::Scanned(Err(down)));
    assert_eq!(step, PassStep::Execute);
    let report = WithdrawalTickReport::default();
    assert_eq!(
        withdrawal_tick(step, PassEvent::Executed(Ok(report))),
        PassStep::Done(Ok(report))
    );
}

#[test]
fn found_requests_are_recorded_before_the_executor_runs() {
    let step = withdrawal_tick(PassStep::Scan, PassEvent::Scanned(Ok(())));
    assert_eq!(step, PassStep::Ingest);
    let lost = || ExecutorError::Db("locked".to_string());
    assert_eq!(
        withdrawal_tick(PassStep::Ingest, PassEvent::Ingested(Err(lost()))),
        PassStep::Done(Err(lost()))
    );
    let step = withdrawal_tick(step, PassEvent::Ingested(Ok(2)));
    assert_eq!(step, PassStep::Execute);
    assert_eq!(
        withdrawal_tick(step, PassEvent::Executed(Err(lost()))),
        PassStep::Done(Err(lost()))
    );
    assert_eq!(
        withdrawal_tick(PassStep::Scan, PassEvent::Ingested(Ok(2))),
        PassStep::Scan
    );
}
