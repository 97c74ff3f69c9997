//! The vault as the operator's tool reads it.
//!
//! The tool reads the same variables as the relayer, and more plainly: a number
//! is read as what it is kept as, signs included, and one that cannot be read
//! is reported without the name of its variable.

use crate::ops::config::{RawWithdrawalConfig, RpcConfig};
use crate::ops::environment::{required, value_in, ConfigError, ConfigFault, Environment};
use crate::text::{number_read, parse_number, parse_signed, signed_read, NumberError};
use vstd::prelude::*;

verus! {

/// How often the withdrawal side is polled where nothing else is stated.
pub const ADMIN_POLL_INTERVAL_MS: u64 = 5_000;

/// How long the tool waits for a Goldcoin node to take its call.
pub const ADMIN_CONNECT_TIMEOUT_MS: u64 = 5_000;

/// How long the tool waits for a Goldcoin node's answer.
pub const ADMIN_READ_TIMEOUT_MS: u64 = 30_000;

/// The number in a variable that has to be there.
pub open spec fn unsigned_in(vars: Seq<(String, String)>, name: Seq<char>, max: nat) -> Result<
    nat,
    ConfigFault,
> {
    match required(vars, name) {
        Ok(text) => match number_read(text@, max) {
            Ok(n) => Ok(n),
            Err(why) => Err(ConfigFault::BadNumber(why)),
        },
        Err(e) => Err(e),
    }
}

/// The signed number in a variable that has to be there.
pub open spec fn signed_in(vars: Seq<(String, String)>, name: Seq<char>) -> Result<
    int,
    ConfigFault,
> {
    match required(vars, name) {
        Ok(text) => match signed_read(text@) {
            Ok(n) => Ok(n),
            Err(why) => Err(ConfigFault::BadNumber(why)),
        },
        Err(e) => Err(e),
    }
}

/// The stated configuration of the withdrawal side as the operator's tool reads
/// it, or the first thing wrong with it. The polling interval is not read.
pub open spec fn admin_withdrawal_config_in(vars: Seq<(String, String)>) -> Result<
    RawWithdrawalConfig,
    ConfigFault,
> {
    let vault_redeem_script_hex = required(vars, "GLC_VAULT_REDEEM_SCRIPT_HEX"@);
    let vault_address = required(vars, "GLC_VAULT_ADDRESS"@);
    let change_address = required(vars, "GLC_VAULT_CHANGE_ADDRESS"@);
    let fee_rate_per_kb = unsigned_in(vars, "GLC_PAYOUT_FEE_RATE_PER_KB"@, u64::MAX as nat);
    let dust_threshold_atomic = unsigned_in(
        vars,
        "GLC_PAYOUT_DUST_THRESHOLD_ATOMIC"@,
        u64::MAX as nat,
    );
    let vault_min_confirmations = signed_in(vars, "GLC_VAULT_MIN_CONFIRMATIONS"@);
    let confirmation_depth = signed_in(vars, "GLC_WITHDRAWAL_CONFIRMATION_DEPTH"@);
    let max_inputs_per_payout = unsigned_in(vars, "GLC_PAYOUT_MAX_INPUTS"@, usize::MAX as nat);
    let reservation_timeout_secs = signed_in(vars, "GLC_PAYOUT_RESERVATION_TIMEOUT_SECS"@);
    let discovery_commitment = required(vars, "GLC_WITHDRAWAL_DISCOVERY_COMMITMENT"@);
    if vault_redeem_script_hex is Err {
        Err(vault_redeem_script_hex->Err_0)
    } else if vault_address is Err {
        Err(vault_address->Err_0)
    } else if change_address is Err {
        Err(change_address->Err_0)
    } else if fee_rate_per_kb is Err {
        Err(fee_rate_per_kb->Err_0)
    } else if dust_threshold_atomic is Err {
        Err(dust_threshold_atomic->Err_0)
    } else if vault_min_confirmations is Err {
        Err(vault_min_confirmations->Err_0)
    } else if confirmation_depth is Err {
        Err(confirmation_depth->Err_0)
    } else if max_inputs_per_payout is Err {
        Err(max_inputs_per_payout->Err_0)
    } else if reservation_timeout_secs is Err {
        Err(reservation_timeout_secs->Err_0)
    } else if discovery_commitment is Err {
        Err(discovery_commitment->Err_0)
    } else {
        Ok(
            RawWithdrawalConfig {
                vault_redeem_script_hex: vault_redeem_script_hex->Ok_0,
                vault_address: vault_address->Ok_0,
                change_address: change_address->Ok_0,
                fee_rate_per_kb: fee_rate_per_kb->Ok_0 as u64,
                dust_threshold_atomic: dust_threshold_atomic->Ok_0 as u64,
                vault_min_confirmations: vault_min_confirmations->Ok_0 as i64,
                confirmation_depth: confirmation_depth->Ok_0 as i64,
                max_inputs_per_payout: max_inputs_per_payout->Ok_0 as usize,
                reservation_timeout_secs: reservation_timeout_secs->Ok_0 as i64,
                discovery_commitment: discovery_commitment->Ok_0,
                poll_interval_ms: ADMIN_POLL_INTERVAL_MS,
            },
        )
    }
}

/// Where the operator's tool finds its Goldcoin node, or the first setting that
/// is missing. How long it waits is not read.
pub open spec fn goldcoin_rpc_in(vars: Seq<(String, String)>) -> Result<RpcConfig, ConfigFault> {
    match (
        required(vars, "GLC_RPC_URL"@),
        required(vars, "GLC_RPC_USER"@),
        required(vars, "GLC_RPC_PASSWORD"@),
    ) {
        (Err(e), _, _) => Err(e),
        (Ok(_), Err(e), _) => Err(e),
        (Ok(_), Ok(_), Err(e)) => Err(e),
        (Ok(url), Ok(user), Ok(password)) => Ok(
            RpcConfig {
                url,
                user,
                password,
                connect_timeout_ms: ADMIN_CONNECT_TIMEOUT_MS,
                read_timeout_ms: ADMIN_READ_TIMEOUT_MS,
            },
        ),
    }
}

impl Environment {
    /// The number in a variable that has to be there.
    fn unsigned_from_env(&self, name: &str, max: u64) -> (value: Result<u64, ConfigError>)
        ensures
            match value {
                Ok(n) => n <= max && unsigned_in(self.vars@, name@, max as nat) == Ok::<
                    nat,
                    ConfigFault,
                >(n as nat),
                Err(e) => unsigned_in(self.vars@, name@, max as nat) == Err::<nat, ConfigFault>(e@),
            },
    {
        match self.env_required(name) {
            Ok(text) => match parse_number(text.as_str(), max) {
                Ok(n) => Ok(n),
                Err(why) => Err(ConfigError::BadNumber(why)),
            },
            Err(e) => Err(e),
        }
    }

    /// The signed number in a variable that has to be there.
    fn signed_from_env(&self, name: &str) -> (value: Result<i64, ConfigError>)
        ensures
            match value {
                Ok(n) => signed_in(self.vars@, name@) == Ok::<int, ConfigFault>(n as int),
                Err(e) => signed_in(self.vars@, name@) == Err::<int, ConfigFault>(e@),
            },
    {
        match self.env_required(name) {
            Ok(text) => match parse_signed(text.as_str()) {
                Ok(n) => Ok(n),
                Err(why) => Err(ConfigError::BadNumber(why)),
            },
            Err(e) => Err(e),
        }
    }

    /// Reads the configuration of the withdrawal side for the operator's tool.
    ///
    /// The variables are those of the relayer: a sweep planned against a vault
    /// that the pipeline does not agree with is a sweep of the wrong vault.
    pub fn admin_withdrawal_config_from_env(&self) -> (config: Result<
        RawWithdrawalConfig,
        ConfigError,
    >)
        ensures
            match config {
                Ok(c) => admin_withdrawal_config_in(self.vars@) == Ok::<
                    RawWithdrawalConfig,
                    ConfigFault,
                >(c),
                Err(e) => admin_withdrawal_config_in(self.vars@) == Err::<
                    RawWithdrawalConfig,
                    ConfigFault,
                >(e@),
            },
    {
        let vault_redeem_script_hex: String = match self.env_required("GLC_VAULT_REDEEM_SCRIPT_HEX") {
            Ok(value) => value,
            Err(e) => {
                return Err(e);
            },
        };
        let vault_address: String = match self.env_required("GLC_VAULT_ADDRESS") {
            Ok(value) => value,
            Err(e) => {
                return Err(e);
            },
        };
        let change_address: String = match self.env_required("GLC_VAULT_CHANGE_ADDRESS") {
            Ok(value) => value,
            Err(e) => {
                return Err(e);
            },
        };
        let fee_rate_per_kb: u64 = match self.unsigned_from_env("GLC_PAYOUT_FEE_RATE_PER_KB", u64::MAX) {
            Ok(value) => value,
            Err(e) => {
                return Err(e);
            },
        };
        let dust_threshold_atomic: u64 = match self.unsigned_from_env(
            "GLC_PAYOUT_DUST_THRESHOLD_ATOMIC",
            u64::MAX,
        ) {
            Ok(value) => value,
            Err(e) => {
                return Err(e);
            },
        };
        let vault_min_confirmations: i64 = match self.signed_from_env("GLC_VAULT_MIN_CONFIRMATIONS") {
            Ok(value) => value,
            Err(e) => {
                return Err(e);
            },
        };
        let confirmation_depth: i64 = match self.signed_from_env("GLC_WITHDRAWAL_CONFIRMATION_DEPTH") {
            Ok(value) => value,
            Err(e) => {
                return Err(e);
            },
        };
        let max_inputs_per_payout: usize = match self.unsigned_from_env(
            "GLC_PAYOUT_MAX_INPUTS",
            usize::MAX as u64,
        ) {
            Ok(value) => value as usize,
            Err(e) => {
                return Err(e);
            },
        };
        let reservation_timeout_secs: i64 = match self.signed_from_env("GLC_PAYOUT_RESERVATION_TIMEOUT_SECS") {
            Ok(value) => value,
            Err(e) => {
                return Err(e);
            },
        };
        let discovery_commitment: String = match self.env_required("GLC_WITHDRAWAL_DISCOVERY_COMMITMENT") {
            Ok(value) => value,
            Err(e) => {
                return Err(e);
            },
        };
        Ok(
            RawWithdrawalConfig {
                vault_redeem_script_hex,
                vault_address,
                change_address,
                fee_rate_per_kb,
                dust_threshold_atomic,
                vault_min_confirmations,
                confirmation_depth,
                max_inputs_per_payout,
                reservation_timeout_secs,
                discovery_commitment,
                poll_interval_ms: ADMIN_POLL_INTERVAL_MS,
            },
        )
    }

    /// Reads where the operator's tool finds its Goldcoin node.
    pub fn goldcoin_rpc_from_env(&self) -> (config: Result<RpcConfig, ConfigError>)
        ensures
            match config {
                Ok(c) => goldcoin_rpc_in(self.vars@) == Ok::<RpcConfig, ConfigFault>(c),
                Err(e) => goldcoin_rpc_in(self.vars@) == Err::<RpcConfig, ConfigFault>(e@),
            },
    {
        let url: String = match self.env_required("GLC_RPC_URL") {
            Ok(value) => value,
            Err(e) => {
                return Err(e);
            },
        };
        let user: String = match self.env_required("GLC_RPC_USER") {
            Ok(value) => value,
            Err(e) => {
                return Err(e);
            },
        };
        let password: String = match self.env_required("GLC_RPC_PASSWORD") {
            Ok(value) => value,
            Err(e) => {
                return Err(e);
            },
        };
        Ok(
            RpcConfig {
                url,
                user,
                password,
                connect_timeout_ms: ADMIN_CONNECT_TIMEOUT_MS,
                read_timeout_ms: ADMIN_READ_TIMEOUT_MS,
            },
        )
    }

    /// Reads the version of the protocol for the operator's tool.
    pub fn admin_protocol_version_from_env(&self) -> (version: Result<u8, ConfigError>)
        ensures
            match version {
                Ok(n) => unsigned_in(self.vars@, "GLC_PROTOCOL_VERSION"@, u8::MAX as nat) == Ok::<
                    nat,
                    ConfigFault,
                >(n as nat),
                Err(e) => unsigned_in(self.vars@, "GLC_PROTOCOL_VERSION"@, u8::MAX as nat) == Err::<
                    nat,
                    ConfigFault,
                >(e@),
            },
    {
        match self.unsigned_from_env("GLC_PROTOCOL_VERSION", 0xff) {
            Ok(n) => Ok(n as u8),
            Err(e) => Err(e),
        }
    }
}

/// A setting of the operator's tool is what its variable spells, read as what it
/// is kept as; nothing is read from a variable that is missing.
pub proof fn a_plain_setting_is_what_its_variable_spells(
    vars: Seq<(String, String)>,
    name: Seq<char>,
    max: nat,
    text: String,
)
    ensures
        value_in(vars, name) is None ==> unsigned_in(vars, name, max)
            == Err::<nat, _>(ConfigFault::Missing(name)) && signed_in(vars, name) == Err::<int, _>(
            ConfigFault::Missing(name),
        ),
        value_in(vars, name) == Some(text) ==> (unsigned_in(
            vars,
            name,
            max,
        ) is Ok <==> number_read(text@, max) is Ok),
        value_in(vars, name) == Some(text) ==> (unsigned_in(
            vars,
            name,
            max,
        ) matches Ok(n) ==> number_read(text@, max) == Ok::<nat, NumberError>(n)),
        value_in(vars, name) == Some(text) ==> (signed_in(vars, name) is Ok
            <==> signed_read(text@) is Ok),
        value_in(vars, name) == Some(text) ==> (signed_in(
            vars,
            name,
        ) matches Ok(n) ==> signed_read(text@) == Ok::<int, NumberError>(n)),
{
}

/// The tool takes each setting of the vault from its own variable, and takes
/// none unless it can take all. The polling interval is fixed.
pub proof fn the_tool_reads_every_setting_from_its_own_variable(vars: Seq<(String, String)>)
    ensures
        ({
            let texts = value_in(vars, "GLC_VAULT_REDEEM_SCRIPT_HEX"@) is Some
                && value_in(vars, "GLC_VAULT_ADDRESS"@) is Some
                && value_in(vars, "GLC_VAULT_CHANGE_ADDRESS"@) is Some
                && value_in(
                vars,
                "GLC_WITHDRAWAL_DISCOVERY_COMMITMENT"@,
            ) is Some;
            let numbers = unsigned_in(vars, "GLC_PAYOUT_FEE_RATE_PER_KB"@, u64::MAX as nat) is Ok
                && unsigned_in(vars, "GLC_PAYOUT_DUST_THRESHOLD_ATOMIC"@, u64::MAX as nat) is Ok
                && signed_in(vars, "GLC_VAULT_MIN_CONFIRMATIONS"@) is Ok && signed_in(
                vars,
                "GLC_WITHDRAWAL_CONFIRMATION_DEPTH"@,
            ) is Ok && unsigned_in(vars, "GLC_PAYOUT_MAX_INPUTS"@, usize::MAX as nat) is Ok
                && signed_in(vars, "GLC_PAYOUT_RESERVATION_TIMEOUT_SECS"@) is Ok;
            admin_withdrawal_config_in(vars) is Ok <==> texts && numbers
        }),
        admin_withdrawal_config_in(vars) matches Ok(c) ==> {
            &&& value_in(vars, "GLC_VAULT_REDEEM_SCRIPT_HEX"@) == Some(
                c.vault_redeem_script_hex,
            )
            &&& value_in(vars, "GLC_VAULT_ADDRESS"@) == Some(
                c.vault_address,
            )
            &&& value_in(vars, "GLC_VAULT_CHANGE_ADDRESS"@) == Some(
                c.change_address,
            )
            &&& value_in(vars, "GLC_WITHDRAWAL_DISCOVERY_COMMITMENT"@)
                == Some(c.discovery_commitment)
            &&& unsigned_in(vars, "GLC_PAYOUT_FEE_RATE_PER_KB"@, u64::MAX as nat) == Ok::<
                nat,
                ConfigFault,
            >(c.fee_rate_per_kb as nat)
            &&& unsigned_in(vars, "GLC_PAYOUT_DUST_THRESHOLD_ATOMIC"@, u64::MAX as nat) == Ok::<
                nat,
                ConfigFault,
            >(c.dust_threshold_atomic as nat)
            &&& signed_in(vars, "GLC_VAULT_MIN_CONFIRMATIONS"@) == Ok::<int, ConfigFault>(
                c.vault_min_confirmations as int,
            )
            &&& signed_in(vars, "GLC_WITHDRAWAL_CONFIRMATION_DEPTH"@) == Ok::<int, ConfigFault>(
                c.confirmation_depth as int,
            )
            &&& unsigned_in(vars, "GLC_PAYOUT_MAX_INPUTS"@, usize::MAX as nat) == Ok::<
                nat,
                ConfigFault,
            >(c.max_inputs_per_payout as nat)
            &&& signed_in(vars, "GLC_PAYOUT_RESERVATION_TIMEOUT_SECS"@) == Ok::<int, ConfigFault>(
                c.reservation_timeout_secs as int,
            )
            &&& c.poll_interval_ms == 5_000
        },
        admin_withdrawal_config_in(vars) matches Err(ConfigFault::Missing(name))
            ==> value_in(vars, name) is None,
{
}

/// The node is where the three settings say, and all three have to be there.
pub proof fn the_node_is_where_the_settings_say(vars: Seq<(String, String)>)
    ensures
        goldcoin_rpc_in(vars) is Ok <==> value_in(vars, "GLC_RPC_URL"@) is Some
            && value_in(vars, "GLC_RPC_USER"@) is Some
            && value_in(vars, "GLC_RPC_PASSWORD"@) is Some,
        goldcoin_rpc_in(vars) matches Ok(c) ==> {
            &&& value_in(vars, "GLC_RPC_URL"@) == Some(c.url)
            &&& value_in(vars, "GLC_RPC_USER"@) == Some(c.user)
            &&& value_in(vars, "GLC_RPC_PASSWORD"@) == Some(c.password)
            &&& c.connect_timeout_ms == 5_000
            &&& c.read_timeout_ms == 30_000
        },
        goldcoin_rpc_in(vars) matches Err(ConfigFault::Missing(name))
            ==> value_in(vars, name) is None,
{
}

} // verus!
