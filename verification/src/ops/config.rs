//! The configuration of the relayer, as the environment states it.

use crate::ops::environment::{
    number, number_or, required, required_fitting, required_number, value_in, ConfigError, ConfigFault, Environment,
    NumberKind,
};
use crate::solana::pubkey::{key_text, Pubkey};
use crate::text::{number_read, NumberError};
use crate::withdrawal::address::base58_text;
use vstd::prelude::*;

verus! {

/// How to reach a Goldcoin node.
#[derive(Debug, PartialEq, Eq)]
pub struct RpcConfig {
    pub url: String,
    pub user: String,
    pub password: String,
    pub connect_timeout_ms: u64,
    pub read_timeout_ms: u64,
}

/// How much may be deposited within a span of time.
#[derive(Debug, Clone, Copy, PartialEq, Eq, Structural)]
pub struct RollingWindow {
    pub window_seconds: u64,
    pub cap_atomic: u64,
}

/// Bounds on what is deposited, where there are any.
#[derive(Debug, Clone, Copy, PartialEq, Eq)]
pub struct ValueCaps {
    pub max_deposit_atomic: Option<u64>,
    pub rolling_window: Option<RollingWindow>,
}

/// The stated configuration of the indexer.
#[derive(Debug, PartialEq, Eq)]
pub struct RawIndexerConfig {
    pub rpc: RpcConfig,
    pub db_path: String,
    pub vault_script_pubkey_hex: String,
    pub confirmation_depth: u32,
    pub max_reorg_depth: u32,
    /// 0 switches the bound off.
    pub min_deposit_atomic: u64,
    pub value_caps: ValueCaps,
    pub protocol_version: u8,
    pub program_id_hex: String,
    pub validator_epoch: u64,
    pub wrapped_mint_hex: String,
    pub node_unavailable_retry_interval_ms: u64,
    pub poll_interval_ms: u64,
}

/// The stated configuration of the Solana side.
#[derive(Debug, PartialEq, Eq)]
pub struct RawSolanaConfig {
    pub rpc_url: String,
    pub program_id: String,
    pub submitter_keypair_path: String,
    pub commitment: String,
    pub poll_interval_ms: u64,
}

/// The stated configuration of the withdrawal side.
#[derive(Debug, PartialEq, Eq)]
pub struct RawWithdrawalConfig {
    pub vault_redeem_script_hex: String,
    pub vault_address: String,
    pub change_address: String,
    pub fee_rate_per_kb: u64,
    pub dust_threshold_atomic: u64,
    pub vault_min_confirmations: i64,
    pub confirmation_depth: i64,
    pub max_inputs_per_payout: usize,
    pub reservation_timeout_secs: i64,
    pub discovery_commitment: String,
    pub poll_interval_ms: u64,
}

/// The bound on one deposit, where one is stated.
pub open spec fn max_deposit_in(vars: Seq<(String, String)>) -> Result<Option<u64>, ConfigFault> {
    match value_in(vars, "GLC_MAX_DEPOSIT_ATOMIC"@) {
        Some(text) => match number(text@, "GLC_MAX_DEPOSIT_ATOMIC"@, NumberKind::U64) {
            Ok(n) => Ok(Some(n as u64)),
            Err(e) => Err(e),
        },
        None => Ok(None),
    }
}

/// The rolling window, where one is stated: its two settings come together.
pub open spec fn window_in(vars: Seq<(String, String)>) -> Result<
    Option<RollingWindow>,
    ConfigFault,
> {
    match (
        value_in(vars, "GLC_ROLLING_WINDOW_SECONDS"@),
        value_in(vars, "GLC_ROLLING_WINDOW_CAP_ATOMIC"@),
    ) {
        (Some(window), Some(cap)) => match number(
            window@,
            "GLC_ROLLING_WINDOW_SECONDS"@,
            NumberKind::U64,
        ) {
            Err(e) => Err(e),
            Ok(window_seconds) => match number(
                cap@,
                "GLC_ROLLING_WINDOW_CAP_ATOMIC"@,
                NumberKind::U64,
            ) {
                Err(e) => Err(e),
                Ok(cap_atomic) => Ok(
                    Some(
                        RollingWindow {
                            window_seconds: window_seconds as u64,
                            cap_atomic: cap_atomic as u64,
                        },
                    ),
                ),
            },
        },
        (None, None) => Ok(None),
        _ => Err(ConfigFault::HalfAWindow),
    }
}

/// The stated configuration of the indexer, or the first thing wrong with it.
pub open spec fn indexer_config_in(vars: Seq<(String, String)>) -> Result<RawIndexerConfig, ConfigFault> {
    let max_deposit = max_deposit_in(vars);
    let window = window_in(vars);
    let url = required(vars, "GLC_RPC_URL"@);
    let user = required(vars, "GLC_RPC_USER"@);
    let password = required(vars, "GLC_RPC_PASSWORD"@);
    let connect_timeout_ms = number_or(vars, "GLC_RPC_CONNECT_TIMEOUT_MS"@, 5_000);
    let read_timeout_ms = number_or(vars, "GLC_RPC_READ_TIMEOUT_MS"@, 30_000);
    let db_path = required(vars, "GLC_DB_PATH"@);
    let vault_script_pubkey_hex = required(vars, "GLC_VAULT_SCRIPT_PUBKEY_HEX"@);
    let confirmation_depth = required_number(vars, "GLC_CONFIRMATION_DEPTH"@, NumberKind::U32);
    let max_reorg_depth = required_number(vars, "GLC_MAX_REORG_DEPTH"@, NumberKind::U32);
    let min_deposit_atomic = number_or(vars, "GLC_MIN_DEPOSIT_ATOMIC"@, 0);
    let protocol_version = required_number(vars, "GLC_PROTOCOL_VERSION"@, NumberKind::U8);
    let program_id_hex = required(vars, "GLC_PROGRAM_ID_HEX"@);
    let validator_epoch = required_number(vars, "GLC_VALIDATOR_EPOCH"@, NumberKind::U64);
    let wrapped_mint_hex = required(vars, "GLC_WRAPPED_MINT_HEX"@);
    let node_unavailable_retry_interval_ms = number_or(
        vars,
        "GLC_NODE_UNAVAILABLE_RETRY_INTERVAL_MS"@,
        5_000,
    );
    let poll_interval_ms = number_or(vars, "GLC_POLL_INTERVAL_MS"@, 1_000);
    if max_deposit is Err {
        Err(max_deposit->Err_0)
    } else if window is Err {
        Err(window->Err_0)
    } else if url is Err {
        Err(url->Err_0)
    } else if user is Err {
        Err(user->Err_0)
    } else if password is Err {
        Err(password->Err_0)
    } else if connect_timeout_ms is Err {
        Err(connect_timeout_ms->Err_0)
    } else if read_timeout_ms is Err {
        Err(read_timeout_ms->Err_0)
    } else if db_path is Err {
        Err(db_path->Err_0)
    } else if vault_script_pubkey_hex is Err {
        Err(vault_script_pubkey_hex->Err_0)
    } else if confirmation_depth is Err {
        Err(confirmation_depth->Err_0)
    } else if max_reorg_depth is Err {
        Err(max_reorg_depth->Err_0)
    } else if min_deposit_atomic is Err {
        Err(min_deposit_atomic->Err_0)
    } else if protocol_version is Err {
        Err(protocol_version->Err_0)
    } else if program_id_hex is Err {
        Err(program_id_hex->Err_0)
    } else if validator_epoch is Err {
        Err(validator_epoch->Err_0)
    } else if wrapped_mint_hex is Err {
        Err(wrapped_mint_hex->Err_0)
    } else if node_unavailable_retry_interval_ms is Err {
        Err(node_unavailable_retry_interval_ms->Err_0)
    } else if poll_interval_ms is Err {
        Err(poll_interval_ms->Err_0)
    } else {
        Ok(
            RawIndexerConfig {
                rpc: RpcConfig {
                    url: url->Ok_0,
                    user: user->Ok_0,
                    password: password->Ok_0,
                    connect_timeout_ms: connect_timeout_ms->Ok_0 as u64,
                    read_timeout_ms: read_timeout_ms->Ok_0 as u64,
                },
                db_path: db_path->Ok_0,
                vault_script_pubkey_hex: vault_script_pubkey_hex->Ok_0,
                confirmation_depth: confirmation_depth->Ok_0 as u32,
                max_reorg_depth: max_reorg_depth->Ok_0 as u32,
                min_deposit_atomic: min_deposit_atomic->Ok_0 as u64,
                value_caps: ValueCaps {
                    max_deposit_atomic: max_deposit->Ok_0,
                    rolling_window: window->Ok_0,
                },
                protocol_version: protocol_version->Ok_0 as u8,
                program_id_hex: program_id_hex->Ok_0,
                validator_epoch: validator_epoch->Ok_0 as u64,
                wrapped_mint_hex: wrapped_mint_hex->Ok_0,
                node_unavailable_retry_interval_ms: node_unavailable_retry_interval_ms->Ok_0 as u64,
                poll_interval_ms: poll_interval_ms->Ok_0 as u64,
            },
        )
    }
}

/// The stated configuration of the withdrawal side, or the first thing wrong
/// with it. Every setting but the polling interval has to be stated.
pub open spec fn withdrawal_config_in(vars: Seq<(String, String)>) -> Result<RawWithdrawalConfig, ConfigFault> {
    let vault_redeem_script_hex = required(vars, "GLC_VAULT_REDEEM_SCRIPT_HEX"@);
    let vault_address = required(vars, "GLC_VAULT_ADDRESS"@);
    let change_address = required(vars, "GLC_VAULT_CHANGE_ADDRESS"@);
    let fee_rate_per_kb = required_number(vars, "GLC_PAYOUT_FEE_RATE_PER_KB"@, NumberKind::U64);
    let dust_threshold_atomic = required_number(
        vars,
        "GLC_PAYOUT_DUST_THRESHOLD_ATOMIC"@,
        NumberKind::U64,
    );
    let vault_min_confirmations = required_fitting(
        vars,
        "GLC_VAULT_MIN_CONFIRMATIONS"@,
        NumberKind::I64,
    );
    let confirmation_depth = required_fitting(
        vars,
        "GLC_WITHDRAWAL_CONFIRMATION_DEPTH"@,
        NumberKind::I64,
    );
    let max_inputs_per_payout = required_fitting(vars, "GLC_PAYOUT_MAX_INPUTS"@, NumberKind::Usize);
    let reservation_timeout_secs = required_fitting(
        vars,
        "GLC_PAYOUT_RESERVATION_TIMEOUT_SECS"@,
        NumberKind::I64,
    );
    let discovery_commitment = required(vars, "GLC_WITHDRAWAL_DISCOVERY_COMMITMENT"@);
    let poll_interval_ms = number_or(vars, "GLC_WITHDRAWAL_POLL_INTERVAL_MS"@, 5_000);
    if vault_redeem_script_hex is Err {
        Err(vault_redeem_script_hex->Err_0)
    } else if vault_address is Err {
        Err(vault_address->Err_0)
    } else if change_address is Err {
        Err(change_address->Err_0)
    } else if fee_rate_per_kb is Err {
        Err(fee_rate_per_kb->Err_0)
    } else if dust_threshold_atomic is Err {
        Err(dust_threshold_atomic->Err_0)
    } else if vault_min_confirmations is Err {
        Err(vault_min_confirmations->Err_0)
    } else if confirmation_depth is Err {
        Err(confirmation_depth->Err_0)
    } else if max_inputs_per_payout is Err {
        Err(max_inputs_per_payout->Err_0)
    } else if reservation_timeout_secs is Err {
        Err(reservation_timeout_secs->Err_0)
    } else if discovery_commitment is Err {
        Err(discovery_commitment->Err_0)
    } else if poll_interval_ms is Err {
        Err(poll_interval_ms->Err_0)
    } else {
        Ok(
            RawWithdrawalConfig {
                vault_redeem_script_hex: vault_redeem_script_hex->Ok_0,
                vault_address: vault_address->Ok_0,
                change_address: change_address->Ok_0,
                fee_rate_per_kb: fee_rate_per_kb->Ok_0 as u64,
                dust_threshold_atomic: dust_threshold_atomic->Ok_0 as u64,
                vault_min_confirmations: vault_min_confirmations->Ok_0 as i64,
                confirmation_depth: confirmation_depth->Ok_0 as i64,
                max_inputs_per_payout: max_inputs_per_payout->Ok_0 as usize,
                reservation_timeout_secs: reservation_timeout_secs->Ok_0 as i64,
                discovery_commitment: discovery_commitment->Ok_0,
                poll_interval_ms: poll_interval_ms->Ok_0 as u64,
            },
        )
    }
}

impl Environment {
    /// The bound on one deposit, where one is stated.
    fn max_deposit(&self) -> (max: Result<Option<u64>, ConfigError>)
        ensures
            match max {
                Ok(m) => max_deposit_in(self.vars@) == Ok::<Option<u64>, ConfigFault>(m),
                Err(e) => max_deposit_in(self.vars@) == Err::<Option<u64>, ConfigFault>(e@),
            },
    {
        if self.get("GLC_MAX_DEPOSIT_ATOMIC").is_none() {
            return Ok(None);
        }
        match self.env_required_u64("GLC_MAX_DEPOSIT_ATOMIC") {
            Ok(n) => Ok(Some(n)),
            Err(e) => Err(e),
        }
    }

    /// The rolling window, where one is stated.
    fn rolling_window(&self) -> (window: Result<Option<RollingWindow>, ConfigError>)
        ensures
            match window {
                Ok(w) => window_in(self.vars@) == Ok::<Option<RollingWindow>, ConfigFault>(w),
                Err(e) => window_in(self.vars@) == Err::<Option<RollingWindow>, ConfigFault>(e@),
            },
    {
        let window: bool = self.get("GLC_ROLLING_WINDOW_SECONDS").is_some();
        let cap: bool = self.get("GLC_ROLLING_WINDOW_CAP_ATOMIC").is_some();
        if window != cap {
            return Err(ConfigError::HalfAWindow);
        }
        if !window {
            return Ok(None);
        }
        let window_seconds: u64 = match self.env_required_u64("GLC_ROLLING_WINDOW_SECONDS") {
            Ok(value) => value,
            Err(e) => {
                return Err(e);
            },
        };
        let cap_atomic: u64 = match self.env_required_u64("GLC_ROLLING_WINDOW_CAP_ATOMIC") {
            Ok(value) => value,
            Err(e) => {
                return Err(e);
            },
        };
        Ok(Some(RollingWindow { window_seconds, cap_atomic }))
    }

    /// Reads the configuration of the indexer.
    ///
    /// The confirmation depth and the bound on reorganisations have no default:
    /// both are decisions about how much can be lost.
    pub fn config_from_env(&self) -> (config: Result<RawIndexerConfig, ConfigError>)
        ensures
            match config {
                Ok(c) => indexer_config_in(self.vars@) == Ok::<RawIndexerConfig, ConfigFault>(c),
                Err(e) => indexer_config_in(self.vars@) == Err::<RawIndexerConfig, ConfigFault>(e@),
            },
    {
        let max_deposit_atomic: Option<u64> = match self.max_deposit() {
            Ok(value) => value,
            Err(e) => {
                return Err(e);
            },
        };
        let rolling_window: Option<RollingWindow> = match self.rolling_window() {
            Ok(value) => value,
            Err(e) => {
                return Err(e);
            },
        };
        let url: String = match self.env_required("GLC_RPC_URL") {
            Ok(value) => value,
            Err(e) => {
                return Err(e);
            },
        };
        let user: String = match self.env_required("GLC_RPC_USER") {
            Ok(value) => value,
            Err(e) => {
                return Err(e);
            },
        };
        let password: String = match self.env_required("GLC_RPC_PASSWORD") {
            Ok(value) => value,
            Err(e) => {
                return Err(e);
            },
        };
        let connect_timeout_ms: u64 = match self.env_optional_u64("GLC_RPC_CONNECT_TIMEOUT_MS", 5_000) {
            Ok(value) => value,
            Err(e) => {
                return Err(e);
            },
        };
        let read_timeout_ms: u64 = match self.env_optional_u64("GLC_RPC_READ_TIMEOUT_MS", 30_000) {
            Ok(value) => value,
            Err(e) => {
                return Err(e);
            },
        };
        let db_path: String = match self.env_required("GLC_DB_PATH") {
            Ok(value) => value,
            Err(e) => {
                return Err(e);
            },
        };
        let vault_script_pubkey_hex: String = match self.env_required("GLC_VAULT_SCRIPT_PUBKEY_HEX") {
            Ok(value) => value,
            Err(e) => {
                return Err(e);
            },
        };
        let confirmation_depth: u32 = match self.env_required_u32("GLC_CONFIRMATION_DEPTH") {
            Ok(value) => value,
            Err(e) => {
                return Err(e);
            },
        };
        let max_reorg_depth: u32 = match self.env_required_u32("GLC_MAX_REORG_DEPTH") {
            Ok(value) => value,
            Err(e) => {
                return Err(e);
            },
        };
        let min_deposit_atomic: u64 = match self.env_optional_u64("GLC_MIN_DEPOSIT_ATOMIC", 0) {
            Ok(value) => value,
            Err(e) => {
                return Err(e);
            },
        };
        let protocol_version: u8 = match self.protocol_version_from_env() {
            Ok(value) => value,
            Err(e) => {
                return Err(e);
            },
        };
        let program_id_hex: String = match self.env_required("GLC_PROGRAM_ID_HEX") {
            Ok(value) => value,
            Err(e) => {
                return Err(e);
            },
        };
        let validator_epoch: u64 = match self.env_required_u64("GLC_VALIDATOR_EPOCH") {
            Ok(value) => value,
            Err(e) => {
                return Err(e);
            },
        };
        let wrapped_mint_hex: String = match self.env_required("GLC_WRAPPED_MINT_HEX") {
            Ok(value) => value,
            Err(e) => {
                return Err(e);
            },
        };
        let node_unavailable_retry_interval_ms: u64 = match self.env_optional_u64(
            "GLC_NODE_UNAVAILABLE_RETRY_INTERVAL_MS",
            5_000,
        ) {
            Ok(value) => value,
            Err(e) => {
                return Err(e);
            },
        };
        let poll_interval_ms: u64 = match self.env_optional_u64("GLC_POLL_INTERVAL_MS", 1_000) {
            Ok(value) => value,
            Err(e) => {
                return Err(e);
            },
        };
        Ok(
            RawIndexerConfig {
                rpc: RpcConfig { url, user, password, connect_timeout_ms, read_timeout_ms },
                db_path,
                vault_script_pubkey_hex,
                confirmation_depth,
                max_reorg_depth,
                min_deposit_atomic,
                value_caps: ValueCaps { max_deposit_atomic, rolling_window },
                protocol_version,
                program_id_hex,
                validator_epoch,
                wrapped_mint_hex,
                node_unavailable_retry_interval_ms,
                poll_interval_ms,
            },
        )
    }

    /// Reads the configuration of the Solana side. The program is the one that
    /// the indexer's configuration already names, so that the two cannot
    /// drift apart.
    pub fn solana_config_from_env(&self, program_id: &Pubkey) -> (config: Result<
        RawSolanaConfig,
        ConfigError,
    >)
        ensures
            ({
                let rpc_url = required(self.vars@, "GLC_SOLANA_RPC_URL"@);
                let keypair = required(self.vars@, "GLC_SOLANA_SUBMITTER_KEYPAIR_PATH"@);
                let commitment = required(self.vars@, "GLC_SOLANA_COMMITMENT"@);
                let interval = number_or(self.vars@, "GLC_SOLANA_POLL_INTERVAL_MS"@, 2_000);
                match config {
                    Ok(c) => {
                        &&& rpc_url == Ok::<String, ConfigFault>(c.rpc_url)
                        &&& c.program_id@ == base58_text(program_id@)
                        &&& keypair == Ok::<String, ConfigFault>(c.submitter_keypair_path)
                        &&& commitment == Ok::<String, ConfigFault>(c.commitment)
                        &&& interval == Ok::<nat, ConfigFault>(c.poll_interval_ms as nat)
                    },
                    Err(e) => e@ == if rpc_url is Err {
                        rpc_url->Err_0
                    } else if keypair is Err {
                        keypair->Err_0
                    } else if commitment is Err {
                        commitment->Err_0
                    } else {
                        interval->Err_0
                    } && (rpc_url is Err || keypair is Err || commitment is Err || interval is Err),
                }
            }),
    {
        let rpc_url: String = match self.env_required("GLC_SOLANA_RPC_URL") {
            Ok(value) => value,
            Err(e) => {
                return Err(e);
            },
        };
        let submitter_keypair_path: String = match self.env_required("GLC_SOLANA_SUBMITTER_KEYPAIR_PATH") {
            Ok(value) => value,
            Err(e) => {
                return Err(e);
            },
        };
        let commitment: String = match self.env_required("GLC_SOLANA_COMMITMENT") {
            Ok(value) => value,
            Err(e) => {
                return Err(e);
            },
        };
        let poll_interval_ms: u64 = match self.env_optional_u64("GLC_SOLANA_POLL_INTERVAL_MS", 2_000) {
            Ok(value) => value,
            Err(e) => {
                return Err(e);
            },
        };
        Ok(
            RawSolanaConfig {
                rpc_url,
                program_id: key_text(program_id),
                submitter_keypair_path,
                commitment,
                poll_interval_ms,
            },
        )
    }

    /// Reads the configuration of the withdrawal side.
    pub fn withdrawal_config_from_env(&self) -> (config: Result<RawWithdrawalConfig, ConfigError>)
        ensures
            match config {
                Ok(c) => withdrawal_config_in(self.vars@) == Ok::<RawWithdrawalConfig, ConfigFault>(c),
                Err(e) => withdrawal_config_in(self.vars@) == Err::<RawWithdrawalConfig, ConfigFault>(
                    e@,
                ),
            },
    {
        let vault_redeem_script_hex: String = match self.env_required("GLC_VAULT_REDEEM_SCRIPT_HEX") {
            Ok(value) => value,
            Err(e) => {
                return Err(e);
            },
        };
        let vault_address: String = match self.env_required("GLC_VAULT_ADDRESS") {
            Ok(value) => value,
            Err(e) => {
                return Err(e);
            },
        };
        let change_address: String = match self.env_required("GLC_VAULT_CHANGE_ADDRESS") {
            Ok(value) => value,
            Err(e) => {
                return Err(e);
            },
        };
        let fee_rate_per_kb: u64 = match self.env_required_u64("GLC_PAYOUT_FEE_RATE_PER_KB") {
            Ok(value) => value,
            Err(e) => {
                return Err(e);
            },
        };
        let dust_threshold_atomic: u64 = match self.env_required_u64("GLC_PAYOUT_DUST_THRESHOLD_ATOMIC") {
            Ok(value) => value,
            Err(e) => {
                return Err(e);
            },
        };
        let vault_min_confirmations: i64 = match self.env_required_i64("GLC_VAULT_MIN_CONFIRMATIONS") {
            Ok(value) => value,
            Err(e) => {
                return Err(e);
            },
        };
        let confirmation_depth: i64 = match self.env_required_i64("GLC_WITHDRAWAL_CONFIRMATION_DEPTH") {
            Ok(value) => value,
            Err(e) => {
                return Err(e);
            },
        };
        let max_inputs_per_payout: usize = match self.env_required_usize("GLC_PAYOUT_MAX_INPUTS") {
            Ok(value) => value,
            Err(e) => {
                return Err(e);
            },
        };
        let reservation_timeout_secs: i64 = match self.env_required_i64("GLC_PAYOUT_RESERVATION_TIMEOUT_SECS") {
            Ok(value) => value,
            Err(e) => {
                return Err(e);
            },
        };
        let discovery_commitment: String = match self.env_required("GLC_WITHDRAWAL_DISCOVERY_COMMITMENT") {
            Ok(value) => value,
            Err(e) => {
                return Err(e);
            },
        };
        let poll_interval_ms: u64 = match self.env_optional_u64(
            "GLC_WITHDRAWAL_POLL_INTERVAL_MS",
            5_000,
        ) {
            Ok(value) => value,
            Err(e) => {
                return Err(e);
            },
        };
        Ok(
            RawWithdrawalConfig {
                vault_redeem_script_hex,
                vault_address,
                change_address,
                fee_rate_per_kb,
                dust_threshold_atomic,
                vault_min_confirmations,
                confirmation_depth,
                max_inputs_per_payout,
                reservation_timeout_secs,
                discovery_commitment,
                poll_interval_ms,
            },
        )
    }
}

proof fn lemma_numbers_fit(
    vars: Seq<(String, String)>,
    name: Seq<char>,
    kind: NumberKind,
    default: u64,
)
    ensures
        required_number(vars, name, kind) matches Ok(n) ==> n <= kind.max(),
        required_fitting(vars, name, kind) matches Ok(n) ==> n <= kind.max(),
        number_or(vars, name, default as nat) matches Ok(n) ==> n <= u64::MAX,
{
    if let Some(text) = value_in(vars, name) {
        if let Ok(n) = number(text@, name, kind) {
            crate::text::a_number_is_read_as_it_is_spelled(text@, kind.max(), n);
        }
        if let Ok(n) = number(text@, name, NumberKind::U64) {
            crate::text::a_number_is_read_as_it_is_spelled(text@, u64::MAX as nat, n);
        }
    }
}

/// The bounds on deposits come from their own variables and only from there: the
/// window is there exactly where both its settings are, and one of them alone is
/// refused.
pub proof fn value_caps_are_what_is_stated(vars: Seq<(String, String)>)
    ensures
        ({
            let max = value_in(vars, "GLC_MAX_DEPOSIT_ATOMIC"@);
            let span = value_in(vars, "GLC_ROLLING_WINDOW_SECONDS"@);
            let cap = value_in(vars, "GLC_ROLLING_WINDOW_CAP_ATOMIC"@);
            &&& max_deposit_in(vars) == Ok::<Option<u64>, ConfigFault>(None) <==> max is None
            &&& (max_deposit_in(vars) matches Ok(Some(n)) ==> (max matches Some(text) && number_read(
                text@,
                u64::MAX as nat,
            ) == Ok::<nat, NumberError>(n as nat)))
            &&& window_in(vars) == Ok::<Option<RollingWindow>, ConfigFault>(None) <==> span is None
                && cap is None
            &&& window_in(vars) == Err::<Option<RollingWindow>, ConfigFault>(
                ConfigFault::HalfAWindow,
            ) <==> (span is None) != (cap is None)
            &&& (window_in(vars) matches Ok(Some(window)) ==> {
                &&& span matches Some(s)
                &&& number_read(s@, u64::MAX as nat) == Ok::<nat, NumberError>(
                    window.window_seconds as nat,
                )
                &&& cap matches Some(c)
                &&& number_read(c@, u64::MAX as nat) == Ok::<nat, NumberError>(
                    window.cap_atomic as nat,
                )
            })
        }),
{
    if let Some(text) = value_in(vars, "GLC_MAX_DEPOSIT_ATOMIC"@) {
        if let Ok(n) = number_read(text@, u64::MAX as nat) {
            crate::text::a_number_is_read_as_it_is_spelled(text@, u64::MAX as nat, n);
        }
    }
    if let Some(text) = value_in(vars, "GLC_ROLLING_WINDOW_SECONDS"@) {
        if let Ok(n) = number_read(text@, u64::MAX as nat) {
            crate::text::a_number_is_read_as_it_is_spelled(text@, u64::MAX as nat, n);
        }
    }
    if let Some(text) = value_in(vars, "GLC_ROLLING_WINDOW_CAP_ATOMIC"@) {
        if let Ok(n) = number_read(text@, u64::MAX as nat) {
            crate::text::a_number_is_read_as_it_is_spelled(text@, u64::MAX as nat, n);
        }
    }
}

/// The indexer takes each setting from its own variable. A setting that need not
/// be stated has its default exactly where it is not, and the depths, the
/// version and the epoch have none.
pub proof fn the_indexer_reads_every_setting_from_its_own_variable(
    vars: Seq<(String, String)>,
    c: RawIndexerConfig,
)
    requires
        indexer_config_in(vars) == Ok::<RawIndexerConfig, ConfigFault>(c),
    ensures
        ({
            &&& value_in(vars, "GLC_RPC_URL"@) == Some(c.rpc.url)
            &&& value_in(vars, "GLC_RPC_USER"@) == Some(c.rpc.user)
            &&& value_in(vars, "GLC_RPC_PASSWORD"@) == Some(c.rpc.password)
            &&& number_or(vars, "GLC_RPC_CONNECT_TIMEOUT_MS"@, 5_000) == Ok::<
                nat,
                ConfigFault,
            >(c.rpc.connect_timeout_ms as nat)
            &&& value_in(vars, "GLC_RPC_CONNECT_TIMEOUT_MS"@) is None
                ==> c.rpc.connect_timeout_ms == 5_000
            &&& number_or(vars, "GLC_RPC_READ_TIMEOUT_MS"@, 30_000) == Ok::<
                nat,
                ConfigFault,
            >(c.rpc.read_timeout_ms as nat)
            &&& value_in(vars, "GLC_RPC_READ_TIMEOUT_MS"@) is None
                ==> c.rpc.read_timeout_ms == 30_000
            &&& value_in(vars, "GLC_DB_PATH"@) == Some(c.db_path)
            &&& value_in(vars, "GLC_VAULT_SCRIPT_PUBKEY_HEX"@) == Some(c.vault_script_pubkey_hex)
            &&& required_number(vars, "GLC_CONFIRMATION_DEPTH"@, NumberKind::U32) == Ok::<
                nat,
                ConfigFault,
            >(c.confirmation_depth as nat)
            &&& required_number(vars, "GLC_MAX_REORG_DEPTH"@, NumberKind::U32) == Ok::<
                nat,
                ConfigFault,
            >(c.max_reorg_depth as nat)
            &&& number_or(vars, "GLC_MIN_DEPOSIT_ATOMIC"@, 0) == Ok::<
                nat,
                ConfigFault,
            >(c.min_deposit_atomic as nat)
            &&& value_in(vars, "GLC_MIN_DEPOSIT_ATOMIC"@) is None ==> c.min_deposit_atomic == 0
            &&& required_number(vars, "GLC_PROTOCOL_VERSION"@, NumberKind::U8) == Ok::<
                nat,
                ConfigFault,
            >(c.protocol_version as nat)
            &&& value_in(vars, "GLC_PROGRAM_ID_HEX"@) == Some(c.program_id_hex)
            &&& required_number(vars, "GLC_VALIDATOR_EPOCH"@, NumberKind::U64) == Ok::<
                nat,
                ConfigFault,
            >(c.validator_epoch as nat)
            &&& value_in(vars, "GLC_WRAPPED_MINT_HEX"@) == Some(c.wrapped_mint_hex)
            &&& number_or(vars, "GLC_NODE_UNAVAILABLE_RETRY_INTERVAL_MS"@, 5_000) == Ok::<
                nat,
                ConfigFault,
            >(c.node_unavailable_retry_interval_ms as nat)
            &&& value_in(vars, "GLC_NODE_UNAVAILABLE_RETRY_INTERVAL_MS"@) is None
                ==> c.node_unavailable_retry_interval_ms == 5_000
            &&& number_or(vars, "GLC_POLL_INTERVAL_MS"@, 1_000) == Ok::<
                nat,
                ConfigFault,
            >(c.poll_interval_ms as nat)
            &&& value_in(vars, "GLC_POLL_INTERVAL_MS"@) is None ==> c.poll_interval_ms == 1_000
            &&& max_deposit_in(vars) == Ok::<Option<u64>, ConfigFault>(
                c.value_caps.max_deposit_atomic,
            )
            &&& window_in(vars) == Ok::<Option<RollingWindow>, ConfigFault>(
                c.value_caps.rolling_window,
            )
        }),
{
    lemma_numbers_fit(vars, "GLC_RPC_CONNECT_TIMEOUT_MS"@, NumberKind::U64, 5_000);
    lemma_numbers_fit(vars, "GLC_RPC_READ_TIMEOUT_MS"@, NumberKind::U64, 30_000);
    lemma_numbers_fit(vars, "GLC_CONFIRMATION_DEPTH"@, NumberKind::U32, 0);
    lemma_numbers_fit(vars, "GLC_MAX_REORG_DEPTH"@, NumberKind::U32, 0);
    lemma_numbers_fit(vars, "GLC_MIN_DEPOSIT_ATOMIC"@, NumberKind::U64, 0);
    lemma_numbers_fit(vars, "GLC_PROTOCOL_VERSION"@, NumberKind::U8, 0);
    lemma_numbers_fit(vars, "GLC_VALIDATOR_EPOCH"@, NumberKind::U64, 0);
    lemma_numbers_fit(vars, "GLC_NODE_UNAVAILABLE_RETRY_INTERVAL_MS"@, NumberKind::U64, 5_000);
    lemma_numbers_fit(vars, "GLC_POLL_INTERVAL_MS"@, NumberKind::U64, 1_000);
}

/// The indexer is configured exactly where every setting without a default is
/// stated and every number can be read, and what is said to be missing is.
pub proof fn the_indexer_is_configured_where_everything_is_stated(vars: Seq<(String, String)>)
    ensures
        indexer_config_in(vars) is Ok <==> {
            &&& max_deposit_in(vars) is Ok
            &&& window_in(vars) is Ok
            &&& value_in(vars, "GLC_RPC_URL"@) is Some
            &&& value_in(vars, "GLC_RPC_USER"@) is Some
            &&& value_in(vars, "GLC_RPC_PASSWORD"@) is Some
            &&& number_or(vars, "GLC_RPC_CONNECT_TIMEOUT_MS"@, 5_000) is Ok
            &&& number_or(vars, "GLC_RPC_READ_TIMEOUT_MS"@, 30_000) is Ok
            &&& value_in(vars, "GLC_DB_PATH"@) is Some
            &&& value_in(vars, "GLC_VAULT_SCRIPT_PUBKEY_HEX"@) is Some
            &&& required_number(vars, "GLC_CONFIRMATION_DEPTH"@, NumberKind::U32) is Ok
            &&& required_number(vars, "GLC_MAX_REORG_DEPTH"@, NumberKind::U32) is Ok
            &&& number_or(vars, "GLC_MIN_DEPOSIT_ATOMIC"@, 0) is Ok
            &&& required_number(vars, "GLC_PROTOCOL_VERSION"@, NumberKind::U8) is Ok
            &&& value_in(vars, "GLC_PROGRAM_ID_HEX"@) is Some
            &&& required_number(vars, "GLC_VALIDATOR_EPOCH"@, NumberKind::U64) is Ok
            &&& value_in(vars, "GLC_WRAPPED_MINT_HEX"@) is Some
            &&& number_or(vars, "GLC_NODE_UNAVAILABLE_RETRY_INTERVAL_MS"@, 5_000) is Ok
            &&& number_or(vars, "GLC_POLL_INTERVAL_MS"@, 1_000) is Ok
        },
        indexer_config_in(vars) matches Err(ConfigFault::Missing(name)) ==> value_in(
            vars,
            name,
        ) is None,
{
}

/// The withdrawal side takes each setting from its own variable. Only the
/// polling interval has a default.
pub proof fn the_withdrawal_side_reads_every_setting_from_its_own_variable(
    vars: Seq<(String, String)>,
    c: RawWithdrawalConfig,
)
    requires
        withdrawal_config_in(vars) == Ok::<RawWithdrawalConfig, ConfigFault>(c),
    ensures
        ({
            &&& value_in(vars, "GLC_VAULT_REDEEM_SCRIPT_HEX"@) == Some(c.vault_redeem_script_hex)
            &&& value_in(vars, "GLC_VAULT_ADDRESS"@) == Some(c.vault_address)
            &&& value_in(vars, "GLC_VAULT_CHANGE_ADDRESS"@) == Some(c.change_address)
            &&& required_number(vars, "GLC_PAYOUT_FEE_RATE_PER_KB"@, NumberKind::U64) == Ok::<
                nat,
                ConfigFault,
            >(c.fee_rate_per_kb as nat)
            &&& required_number(vars, "GLC_PAYOUT_DUST_THRESHOLD_ATOMIC"@, NumberKind::U64) == Ok::<
                nat,
                ConfigFault,
            >(c.dust_threshold_atomic as nat)
            &&& required_fitting(vars, "GLC_VAULT_MIN_CONFIRMATIONS"@, NumberKind::I64) == Ok::<
                nat,
                ConfigFault,
            >(c.vault_min_confirmations as nat)
            &&& required_fitting(
                vars,
                "GLC_WITHDRAWAL_CONFIRMATION_DEPTH"@,
                NumberKind::I64,
            ) == Ok::<nat, ConfigFault>(c.confirmation_depth as nat)
            &&& required_fitting(vars, "GLC_PAYOUT_MAX_INPUTS"@, NumberKind::Usize) == Ok::<
                nat,
                ConfigFault,
            >(c.max_inputs_per_payout as nat)
            &&& required_fitting(
                vars,
                "GLC_PAYOUT_RESERVATION_TIMEOUT_SECS"@,
                NumberKind::I64,
            ) == Ok::<nat, ConfigFault>(c.reservation_timeout_secs as nat)
            &&& value_in(vars, "GLC_WITHDRAWAL_DISCOVERY_COMMITMENT"@)
                == Some(c.discovery_commitment)
            &&& number_or(vars, "GLC_WITHDRAWAL_POLL_INTERVAL_MS"@, 5_000) == Ok::<
                nat,
                ConfigFault,
            >(c.poll_interval_ms as nat)
            &&& value_in(vars, "GLC_WITHDRAWAL_POLL_INTERVAL_MS"@) is None
                ==> c.poll_interval_ms == 5_000
        }),
{
    lemma_numbers_fit(vars, "GLC_PAYOUT_FEE_RATE_PER_KB"@, NumberKind::U64, 0);
    lemma_numbers_fit(vars, "GLC_PAYOUT_DUST_THRESHOLD_ATOMIC"@, NumberKind::U64, 0);
    lemma_numbers_fit(vars, "GLC_VAULT_MIN_CONFIRMATIONS"@, NumberKind::I64, 0);
    lemma_numbers_fit(vars, "GLC_WITHDRAWAL_CONFIRMATION_DEPTH"@, NumberKind::I64, 0);
    lemma_numbers_fit(vars, "GLC_PAYOUT_MAX_INPUTS"@, NumberKind::Usize, 0);
    lemma_numbers_fit(vars, "GLC_PAYOUT_RESERVATION_TIMEOUT_SECS"@, NumberKind::I64, 0);
    lemma_numbers_fit(vars, "GLC_WITHDRAWAL_POLL_INTERVAL_MS"@, NumberKind::U64, 5_000);
}

/// The withdrawal side is configured exactly where every setting without a
/// default is stated and every number can be read, and what is said to be
/// missing is.
pub proof fn the_withdrawal_side_is_configured_where_everything_is_stated(
    vars: Seq<(String, String)>,
)
    ensures
        withdrawal_config_in(vars) is Ok <==> {
            &&& value_in(vars, "GLC_VAULT_REDEEM_SCRIPT_HEX"@) is Some
            &&& value_in(vars, "GLC_VAULT_ADDRESS"@) is Some
            &&& value_in(vars, "GLC_VAULT_CHANGE_ADDRESS"@) is Some
            &&& required_number(vars, "GLC_PAYOUT_FEE_RATE_PER_KB"@, NumberKind::U64) is Ok
            &&& required_number(vars, "GLC_PAYOUT_DUST_THRESHOLD_ATOMIC"@, NumberKind::U64) is Ok
            &&& required_fitting(vars, "GLC_VAULT_MIN_CONFIRMATIONS"@, NumberKind::I64) is Ok
            &&& required_fitting(vars, "GLC_WITHDRAWAL_CONFIRMATION_DEPTH"@, NumberKind::I64) is Ok
            &&& required_fitting(vars, "GLC_PAYOUT_MAX_INPUTS"@, NumberKind::Usize) is Ok
            &&& required_fitting(vars, "GLC_PAYOUT_RESERVATION_TIMEOUT_SECS"@, NumberKind::I64) is Ok
            &&& value_in(vars, "GLC_WITHDRAWAL_DISCOVERY_COMMITMENT"@) is Some
            &&& number_or(vars, "GLC_WITHDRAWAL_POLL_INTERVAL_MS"@, 5_000) is Ok
        },
        withdrawal_config_in(vars) matches Err(ConfigFault::Missing(name)) ==> value_in(
            vars,
            name,
        ) is None,
{
}

/// The Solana side is configured exactly where its three texts are stated and its
/// interval can be read, and it is of the program that it is given.
pub proof fn the_solana_side_is_of_the_given_program(
    env: Environment,
    program_id: Pubkey,
    config: Result<RawSolanaConfig, ConfigError>,
)
    requires
        call_ensures(Environment::solana_config_from_env, (&env, &program_id), config),
    ensures
        config is Ok <==> value_in(env.vars@, "GLC_SOLANA_RPC_URL"@) is Some && value_in(
            env.vars@,
            "GLC_SOLANA_SUBMITTER_KEYPAIR_PATH"@,
        ) is Some && value_in(env.vars@, "GLC_SOLANA_COMMITMENT"@) is Some && number_or(
            env.vars@,
            "GLC_SOLANA_POLL_INTERVAL_MS"@,
            2_000,
        ) is Ok,
        config matches Ok(c) ==> {
            &&& value_in(env.vars@, "GLC_SOLANA_RPC_URL"@) == Some(c.rpc_url)
            &&& c.program_id@ == base58_text(program_id@)
            &&& value_in(env.vars@, "GLC_SOLANA_SUBMITTER_KEYPAIR_PATH"@) == Some(
                c.submitter_keypair_path,
            )
            &&& value_in(env.vars@, "GLC_SOLANA_COMMITMENT"@) == Some(c.commitment)
            &&& value_in(env.vars@, "GLC_SOLANA_POLL_INTERVAL_MS"@) is None ==> c.poll_interval_ms
                == 2_000
        },
{
}

} // verus!
