//! The settings of the program.

use vstd::prelude::*;

use crate::environment::{
    bool_setting, env_bool, env_optional, env_string, env_u32, env_u64, env_u64_with_fallback,
    env_usize, fallback_name, fallback_setting, number_setting, optional_setting, text_setting,
    uppercase, ConfigError, ConfigFault, Environment,
};
use crate::text::{joined, same_text, split_at_char, trimmed};

verus! {

/// Accepts the values from `min` to `max`, both included.
pub fn validate_range(name: &'static str, value: u64, min: u64, max: u64) -> (r: Result<
    (),
    ConfigError,
>)
    ensures
        match r {
            Ok(_) => min <= value <= max,
            Err(error) => !(min <= value <= max) && error@ == (ConfigFault::Range {
                name: name@,
                min: min as nat,
                max: max as nat,
                value: value as nat,
            }),
        },
{
    if value < min || value > max {
        return Err(ConfigError::Range { name, min, max, value });
    }
    Ok(())
}

/// How many replicas have to answer a statement.
#[derive(Clone, Copy, Debug, PartialEq, Eq, Structural)]
pub enum Consistency {
    One,
    LocalOne,
    Quorum,
    LocalQuorum,
}

/// The level that a name in upper case stands for.
pub open spec fn consistency_level(name: Seq<char>) -> Option<Consistency> {
    if name == "ONE"@ {
        Some(Consistency::One)
    } else if name == "LOCAL_ONE"@ {
        Some(Consistency::LocalOne)
    } else if name == "QUORUM"@ {
        Some(Consistency::Quorum)
    } else if name == "LOCAL_QUORUM"@ {
        Some(Consistency::LocalQuorum)
    } else {
        None
    }
}

/// The level that a name in upper case stands for.
pub fn consistency_named(name: &str) -> (level: Option<Consistency>)
    ensures
        level == consistency_level(name@),
{
    if same_text(name, "ONE") {
        Some(Consistency::One)
    } else if same_text(name, "LOCAL_ONE") {
        Some(Consistency::LocalOne)
    } else if same_text(name, "QUORUM") {
        Some(Consistency::Quorum)
    } else if same_text(name, "LOCAL_QUORUM") {
        Some(Consistency::LocalQuorum)
    } else {
        None
    }
}

/// The entries of a list separated by commas: each without white space around it,
/// and none that is blank.
pub open spec fn list_entries(list: Seq<char>) -> Seq<Seq<char>> {
    crate::text::split(list, ',').map_values(|entry: Seq<char>| crate::text::trim(entry)).filter(
        |entry: Seq<char>| entry.len() > 0,
    )
}

/// The entries of a list separated by commas: each without white space around it,
/// and none that is blank.
pub fn parse_list(list: &str) -> (entries: Vec<String>)
    ensures
        entries.deep_view() == list_entries(list@),
{
    let pieces: Vec<String> = split_at_char(list, ',');
    let mut entries: Vec<String> = Vec::new();
    let ghost trimmed_pieces = pieces.deep_view().map_values(
        |entry: Seq<char>| crate::text::trim(entry),
    );
    let ghost kept = |entry: Seq<char>| entry.len() > 0;
    let mut i: usize = 0;
    proof {
        reveal(Seq::filter);
        assert(entries.deep_view() == trimmed_pieces.take(0).filter(kept));
    }
    while i < pieces.len()
        invariant
            i <= pieces@.len(),
            trimmed_pieces == pieces.deep_view().map_values(
                |entry: Seq<char>| crate::text::trim(entry),
            ),
            kept == (|entry: Seq<char>| entry.len() > 0),
            entries.deep_view() == trimmed_pieces.take(i as int).filter(kept),
        decreases pieces@.len() - i,
    {
        let entry: String = trimmed(pieces[i].as_str());
        let ghost before = entries.deep_view();
        let ghost text = entry@;
        assert(trimmed_pieces[i as int] == text);
        proof {
            reveal(Seq::filter);
            assert(trimmed_pieces.take(i + 1).drop_last() == trimmed_pieces.take(i as int));
            assert(trimmed_pieces.take(i + 1).last() == text);
        }
        if !entry.as_str().is_empty() {
            entries.push(entry);
            assert(entries.deep_view() == before.push(text));
        }
        i = i + 1;
    }
    assert(trimmed_pieces.take(i as int) == trimmed_pieces);
    entries
}

/// The settings of the program.
#[derive(Clone, Debug)]
pub struct Config {
    /// The `host:port` of each node that the first connection may go to.
    pub contact_points: Vec<String>,
    pub local_dc: String,
    pub keyspace: String,
    pub username: Option<String>,
    pub password: Option<String>,
    pub consistency: Consistency,
    pub consistency_name: String,
    pub tls_enabled: bool,
    pub create_schema: bool,
    pub rps_per_pod: u64,
    pub read_ratio: u32,
    pub write_ratio: u32,
    pub payload_bytes: usize,
    pub workers: usize,
    pub buckets: usize,
    pub historical_read_enabled: bool,
    pub historical_buckets: usize,
    /// How many failures in a row give the session up; never where it is zero.
    pub reconnect_after_consecutive_errors: u64,
    /// How many seconds after a success the program still counts as ready.
    pub ready_max_age: u64,
    /// The address that the HTTP server binds to, as it was written.
    pub metrics_addr: String,
    pub log_every_n_success: u64,
    pub writer_id: String,
}

impl Config {
    /// What holds of all settings that the environment can give.
    pub open spec fn valid(&self) -> bool {
        &&& self.contact_points@.len() > 0
        &&& !self.tls_enabled
        &&& 1 <= self.read_ratio + self.write_ratio <= u32::MAX
        &&& 1 <= self.rps_per_pod <= 1_000_000
        &&& 1 <= self.workers <= 10_000
        &&& 1 <= self.buckets <= 1_000_000
        &&& 1 <= self.historical_buckets <= 1_000_000
        &&& 1 <= self.payload_bytes <= 10 * 1024 * 1024
        &&& self.reconnect_after_consecutive_errors <= 1_000_000
        &&& 1 <= self.ready_max_age <= 3600
    }

    /// The contact points in one text, for messages.
    pub fn contact_points_text(&self) -> (text: String)
        ensures
            text@ == crate::text::join(self.contact_points.deep_view(), ","@),
    {
        joined(&self.contact_points, ",")
    }
}

/// `first`, or `second` where `first` is none.
pub open spec fn either(
    first: Option<ConfigFault>,
    second: Option<ConfigFault>,
) -> Option<ConfigFault> {
    if first is Some {
        first
    } else {
        second
    }
}

/// What is wrong with the truth value of `name`.
pub open spec fn bool_fault(
    vars: Seq<(Seq<char>, Seq<char>)>,
    name: Seq<char>,
) -> Option<ConfigFault> {
    if bool_setting(vars, name, false) is None {
        Some(ConfigFault::NotBoolean { name })
    } else {
        None
    }
}

/// What is wrong with `number`, read from the variable `source`, where the setting
/// `name` takes the numbers from `min` to `max`.
pub open spec fn number_fault(
    number: Option<nat>,
    source: Seq<char>,
    name: Seq<char>,
    min: nat,
    max: nat,
) -> Option<ConfigFault> {
    match number {
        None => Some(ConfigFault::NotUnsigned { name: source }),
        Some(value) => if min <= value <= max {
            None
        } else {
            Some(ConfigFault::Range { name, min, max, value })
        },
    }
}

pub open spec fn contact_points_setting(vars: Seq<(Seq<char>, Seq<char>)>) -> Seq<Seq<char>> {
    list_entries(text_setting(vars, "CASSANDRA_CONTACT_POINTS"@, "127.0.0.1:9042"@))
}

pub open spec fn consistency_setting(vars: Seq<(Seq<char>, Seq<char>)>) -> Seq<char> {
    uppercase(text_setting(vars, "CASSANDRA_CONSISTENCY"@, "LOCAL_QUORUM"@))
}

pub open spec fn read_ratio_setting(vars: Seq<(Seq<char>, Seq<char>)>) -> Option<nat> {
    number_setting(vars, "APP_READ_RATIO"@, 70, u32::MAX as nat)
}

pub open spec fn write_ratio_setting(vars: Seq<(Seq<char>, Seq<char>)>) -> Option<nat> {
    number_setting(vars, "APP_WRITE_RATIO"@, 30, u32::MAX as nat)
}

pub open spec fn rps_setting(vars: Seq<(Seq<char>, Seq<char>)>) -> Option<nat> {
    fallback_setting(vars, "APP_RPS_PER_POD"@, "APP_RPS"@, 1000, u64::MAX as nat)
}

pub open spec fn workers_setting(vars: Seq<(Seq<char>, Seq<char>)>) -> Option<nat> {
    number_setting(vars, "APP_WORKERS"@, 32, usize::MAX as nat)
}

pub open spec fn buckets_setting(vars: Seq<(Seq<char>, Seq<char>)>) -> Option<nat> {
    number_setting(vars, "APP_BUCKETS"@, 256, usize::MAX as nat)
}

/// As many as there are buckets, unless the environment says otherwise.
pub open spec fn historical_buckets_setting(vars: Seq<(Seq<char>, Seq<char>)>) -> Option<nat> {
    match buckets_setting(vars) {
        Some(buckets) => number_setting(
            vars,
            "APP_HISTORICAL_BUCKETS"@,
            buckets,
            usize::MAX as nat,
        ),
        None => None,
    }
}

pub open spec fn payload_setting(vars: Seq<(Seq<char>, Seq<char>)>) -> Option<nat> {
    number_setting(vars, "APP_PAYLOAD_BYTES"@, 4096, usize::MAX as nat)
}

pub open spec fn reconnect_setting(vars: Seq<(Seq<char>, Seq<char>)>) -> Option<nat> {
    number_setting(vars, "APP_RECONNECT_AFTER_CONSECUTIVE_ERRORS"@, 10, u64::MAX as nat)
}

pub open spec fn ready_age_setting(vars: Seq<(Seq<char>, Seq<char>)>) -> Option<nat> {
    number_setting(vars, "APP_READY_MAX_AGE_SECONDS"@, 30, u64::MAX as nat)
}

pub open spec fn log_every_setting(vars: Seq<(Seq<char>, Seq<char>)>) -> Option<nat> {
    number_setting(vars, "APP_LOG_EVERY_N_SUCCESS"@, 1000, u64::MAX as nat)
}

/// What is wrong with the settings up to the two ratios.
pub open spec fn leading_fault(vars: Seq<(Seq<char>, Seq<char>)>) -> Option<ConfigFault> {
    either(
        if contact_points_setting(vars).len() == 0 {
            Some(ConfigFault::NoContactPoints)
        } else {
            None
        },
        either(
            if consistency_level(consistency_setting(vars)) is None {
                Some(ConfigFault::UnsupportedConsistency { level: consistency_setting(vars) })
            } else {
                None
            },
            either(
                bool_fault(vars, "CASSANDRA_TLS_ENABLED"@),
                either(
                    if bool_setting(vars, "CASSANDRA_TLS_ENABLED"@, false) == Some(true) {
                        Some(ConfigFault::TlsUnsupported)
                    } else {
                        None
                    },
                    either(
                        number_fault(
                            read_ratio_setting(vars),
                            "APP_READ_RATIO"@,
                            "APP_READ_RATIO"@,
                            0,
                            u32::MAX as nat,
                        ),
                        number_fault(
                            write_ratio_setting(vars),
                            "APP_WRITE_RATIO"@,
                            "APP_WRITE_RATIO"@,
                            0,
                            u32::MAX as nat,
                        ),
                    ),
                ),
            ),
        ),
    )
}

/// Whether the two ratios, with nothing wrong up to them, add up to more than a
/// `u32` holds.
pub open spec fn ratios_overflow(vars: Seq<(Seq<char>, Seq<char>)>) -> bool {
    &&& leading_fault(vars) is None
    &&& read_ratio_setting(vars)->0 + write_ratio_setting(vars)->0 > u32::MAX
}

/// The first thing that is wrong with the settings, in the order in which they are
/// looked at.
pub open spec fn fault(
    vars: Seq<(Seq<char>, Seq<char>)>,
    metrics_addr_parses: bool,
) -> Option<ConfigFault> {
    either(
        leading_fault(vars),
        either(
            if read_ratio_setting(vars)->0 + write_ratio_setting(vars)->0 == 0 {
                Some(ConfigFault::NoOperationWeight)
            } else {
                None
            },
            either(
                number_fault(
                    rps_setting(vars),
                    fallback_name(vars, "APP_RPS_PER_POD"@, "APP_RPS"@),
                    "APP_RPS_PER_POD"@,
                    1,
                    1_000_000,
                ),
                either(
                    number_fault(
                        workers_setting(vars),
                        "APP_WORKERS"@,
                        "APP_WORKERS"@,
                        1,
                        10_000,
                    ),
                    either(
                        number_fault(
                            buckets_setting(vars),
                            "APP_BUCKETS"@,
                            "APP_BUCKETS"@,
                            1,
                            1_000_000,
                        ),
                        either(
                            number_fault(
                                historical_buckets_setting(vars),
                                "APP_HISTORICAL_BUCKETS"@,
                                "APP_HISTORICAL_BUCKETS"@,
                                1,
                                1_000_000,
                            ),
                            trailing_fault(vars, metrics_addr_parses),
                        ),
                    ),
                ),
            ),
        ),
    )
}

/// What is wrong with the settings from the payload on.
pub open spec fn trailing_fault(
    vars: Seq<(Seq<char>, Seq<char>)>,
    metrics_addr_parses: bool,
) -> Option<ConfigFault> {
    either(
        number_fault(
            payload_setting(vars),
            "APP_PAYLOAD_BYTES"@,
            "APP_PAYLOAD_BYTES"@,
            1,
            10 * 1024 * 1024,
        ),
        either(
            number_fault(
                reconnect_setting(vars),
                "APP_RECONNECT_AFTER_CONSECUTIVE_ERRORS"@,
                "APP_RECONNECT_AFTER_CONSECUTIVE_ERRORS"@,
                0,
                1_000_000,
            ),
            either(
                number_fault(
                    ready_age_setting(vars),
                    "APP_READY_MAX_AGE_SECONDS"@,
                    "APP_READY_MAX_AGE_SECONDS"@,
                    1,
                    3600,
                ),
                either(
                    bool_fault(vars, "APP_CREATE_SCHEMA"@),
                    either(
                        bool_fault(vars, "APP_HISTORICAL_READ_ENABLED"@),
                        either(
                            if metrics_addr_parses {
                                None
                            } else {
                                Some(ConfigFault::NotSocketAddress)
                            },
                            number_fault(
                                log_every_setting(vars),
                                "APP_LOG_EVERY_N_SUCCESS"@,
                                "APP_LOG_EVERY_N_SUCCESS"@,
                                0,
                                u64::MAX as nat,
                            ),
                        ),
                    ),
                ),
            ),
        ),
    )
}

/// The settings with nothing wrong in them.
pub open spec fn settings_of(vars: Seq<(Seq<char>, Seq<char>)>, config: Config) -> bool {
    &&& config.contact_points.deep_view() == contact_points_setting(vars)
    &&& config.local_dc@ == text_setting(vars, "CASSANDRA_LOCAL_DC"@, "dc1"@)
    &&& config.keyspace@ == text_setting(vars, "CASSANDRA_KEYSPACE"@, "zdm_test"@)
    &&& config.username.deep_view() == optional_setting(vars, "CASSANDRA_USERNAME"@)
    &&& config.password.deep_view() == optional_setting(vars, "CASSANDRA_PASSWORD"@)
    &&& config.consistency_name@ == consistency_setting(vars)
    &&& Some(config.consistency) == consistency_level(consistency_setting(vars))
    &&& !config.tls_enabled
    &&& Some(config.create_schema) == bool_setting(vars, "APP_CREATE_SCHEMA"@, false)
    &&& Some(config.rps_per_pod as nat) == rps_setting(vars)
    &&& Some(config.read_ratio as nat) == read_ratio_setting(vars)
    &&& Some(config.write_ratio as nat) == write_ratio_setting(vars)
    &&& Some(config.payload_bytes as nat) == payload_setting(vars)
    &&& Some(config.workers as nat) == workers_setting(vars)
    &&& Some(config.buckets as nat) == buckets_setting(vars)
    &&& Some(config.historical_read_enabled) == bool_setting(
        vars,
        "APP_HISTORICAL_READ_ENABLED"@,
        false,
    )
    &&& Some(config.historical_buckets as nat) == historical_buckets_setting(vars)
    &&& Some(config.reconnect_after_consecutive_errors as nat) == reconnect_setting(vars)
    &&& Some(config.ready_max_age as nat) == ready_age_setting(vars)
    &&& config.metrics_addr@ == metrics_addr_setting(vars)
    &&& Some(config.log_every_n_success as nat) == log_every_setting(vars)
    &&& config.writer_id@ == text_setting(vars, "HOSTNAME"@, "local"@)
}

/// The text of the address that the HTTP server binds to.
pub open spec fn metrics_addr_setting(vars: Seq<(Seq<char>, Seq<char>)>) -> Seq<char> {
    text_setting(vars, "APP_METRICS_ADDR"@, "0.0.0.0:8080"@)
}

/// The settings that are looked at before the two ratios are added, and the ratios.
struct LeadingSettings {
    contact_points: Vec<String>,
    consistency: Consistency,
    consistency_name: String,
    read_ratio: u32,
    write_ratio: u32,
}

fn leading_settings(env: &Environment) -> (r: Result<LeadingSettings, ConfigError>)
    ensures
        match r {
            Ok(leading) => {
                &&& leading_fault(env@) is None
                &&& leading.contact_points.deep_view() == contact_points_setting(env@)
                &&& leading.contact_points@.len() > 0
                &&& leading.consistency_name@ == consistency_setting(env@)
                &&& Some(leading.consistency) == consistency_level(consistency_setting(env@))
                &&& Some(leading.read_ratio as nat) == read_ratio_setting(env@)
                &&& Some(leading.write_ratio as nat) == write_ratio_setting(env@)
            },
            Err(error) => leading_fault(env@) == Some(error@),
        },
{
    let contact_points: Vec<String> = parse_list(
        env_string(env, "CASSANDRA_CONTACT_POINTS", "127.0.0.1:9042").as_str(),
    );
    if contact_points.len() == 0 {
        return Err(ConfigError::NoContactPoints);
    }
    let consistency_name: String = env_string(
        env,
        "CASSANDRA_CONSISTENCY",
        "LOCAL_QUORUM",
    ).as_str().to_uppercase();
    let consistency: Consistency = match consistency_named(consistency_name.as_str()) {
        Some(consistency) => consistency,
        None => {
            return Err(ConfigError::UnsupportedConsistency { level: consistency_name });
        },
    };
    let tls_enabled: bool = match env_bool(env, "CASSANDRA_TLS_ENABLED", false) {
        Ok(tls_enabled) => tls_enabled,
        Err(error) => {
            return Err(error);
        },
    };
    if tls_enabled {
        return Err(ConfigError::TlsUnsupported);
    }
    let read_ratio: u32 = match env_u32(env, "APP_READ_RATIO", 70) {
        Ok(read_ratio) => read_ratio,
        Err(error) => {
            return Err(error);
        },
    };
    let write_ratio: u32 = match env_u32(env, "APP_WRITE_RATIO", 30) {
        Ok(write_ratio) => write_ratio,
        Err(error) => {
            return Err(error);
        },
    };
    Ok(LeadingSettings { contact_points, consistency, consistency_name, read_ratio, write_ratio })
}

/// Whether `Config::from_env` would have to add two ratios that a `u32` cannot hold
/// the sum of.
pub fn ratios_too_large(env: &Environment) -> (r: bool)
    ensures
        r == ratios_overflow(env@),
{
    match leading_settings(env) {
        Ok(leading) => leading.read_ratio as u64 + leading.write_ratio as u64 > u32::MAX as u64,
        Err(_) => false,
    }
}

/// The number of `name`, within its bounds.
fn bounded_u64(env: &Environment, name: &'static str, default: u64, min: u64, max: u64) -> (r:
    Result<u64, ConfigError>)
    ensures
        match r {
            Ok(value) => {
                &&& number_setting(env@, name@, default as nat, u64::MAX as nat) == Some(
                    value as nat,
                )
                &&& min <= value <= max
            },
            Err(error) => number_fault(
                number_setting(env@, name@, default as nat, u64::MAX as nat),
                name@,
                name@,
                min as nat,
                max as nat,
            ) == Some(error@),
        },
{
    match env_u64(env, name, default) {
        Ok(value) => match validate_range(name, value, min, max) {
            Ok(_) => Ok(value),
            Err(error) => Err(error),
        },
        Err(error) => Err(error),
    }
}

/// The number of `name`, within its bounds.
fn bounded_usize(env: &Environment, name: &'static str, default: usize, min: u64, max: u64) -> (r:
    Result<usize, ConfigError>)
    ensures
        match r {
            Ok(value) => {
                &&& number_setting(env@, name@, default as nat, usize::MAX as nat) == Some(
                    value as nat,
                )
                &&& min <= value <= max
            },
            Err(error) => number_fault(
                number_setting(env@, name@, default as nat, usize::MAX as nat),
                name@,
                name@,
                min as nat,
                max as nat,
            ) == Some(error@),
        },
{
    match env_usize(env, name, default) {
        Ok(value) => match validate_range(name, value as u64, min, max) {
            Ok(_) => Ok(value),
            Err(error) => Err(error),
        },
        Err(error) => Err(error),
    }
}

impl Config {
    /// The text of the address that the HTTP server binds to.
    pub fn metrics_addr_text(env: &Environment) -> (text: String)
        ensures
            text@ == metrics_addr_setting(env@),
    {
        env_string(env, "APP_METRICS_ADDR", "0.0.0.0:8080")
    }

    /// The settings that the environment gives. Whether the text of
    /// `metrics_addr_text` is a socket address is for the caller to find out.
    ///
    /// The sum of the two ratios has to fit in a `u32`, which `ratios_too_large`
    /// tells.
    pub fn from_env(env: &Environment, metrics_addr_parses: bool) -> (r: Result<
        Config,
        ConfigError,
    >)
        requires
            !ratios_overflow(env@),
        ensures
            match r {
                Ok(config) => {
                    &&& fault(env@, metrics_addr_parses) is None
                    &&& settings_of(env@, config)
                    &&& config.valid()
                },
                Err(error) => fault(env@, metrics_addr_parses) == Some(error@),
            },
    {
        let leading: LeadingSettings = match leading_settings(env) {
            Ok(leading) => leading,
            Err(error) => {
                return Err(error);
            },
        };
        if leading.read_ratio + leading.write_ratio == 0 {
            return Err(ConfigError::NoOperationWeight);
        }
        let rps_per_pod: u64 = match env_u64_with_fallback(
            env,
            "APP_RPS_PER_POD",
            "APP_RPS",
            1000,
        ) {
            Ok(rps_per_pod) => rps_per_pod,
            Err(error) => {
                return Err(error);
            },
        };
        match validate_range("APP_RPS_PER_POD", rps_per_pod, 1, 1_000_000) {
            Ok(_) => {},
            Err(error) => {
                return Err(error);
            },
        }
        let workers: usize = match bounded_usize(env, "APP_WORKERS", 32, 1, 10_000) {
            Ok(workers) => workers,
            Err(error) => {
                return Err(error);
            },
        };
        let buckets: usize = match bounded_usize(env, "APP_BUCKETS", 256, 1, 1_000_000) {
            Ok(buckets) => buckets,
            Err(error) => {
                return Err(error);
            },
        };
        let historical_buckets: usize = match bounded_usize(
            env,
            "APP_HISTORICAL_BUCKETS",
            buckets,
            1,
            1_000_000,
        ) {
            Ok(historical_buckets) => historical_buckets,
            Err(error) => {
                return Err(error);
            },
        };
        let payload_bytes: usize = match bounded_usize(
            env,
            "APP_PAYLOAD_BYTES",
            4096,
            1,
            10 * 1024 * 1024,
        ) {
            Ok(payload_bytes) => payload_bytes,
            Err(error) => {
                return Err(error);
            },
        };
        let reconnect_after_consecutive_errors: u64 = match bounded_u64(
            env,
            "APP_RECONNECT_AFTER_CONSECUTIVE_ERRORS",
            10,
            0,
            1_000_000,
        ) {
            Ok(errors) => errors,
            Err(error) => {
                return Err(error);
            },
        };
        let ready_max_age: u64 = match bounded_u64(env, "APP_READY_MAX_AGE_SECONDS", 30, 1, 3600) {
            Ok(seconds) => seconds,
            Err(error) => {
                return Err(error);
            },
        };
        let create_schema: bool = match env_bool(env, "APP_CREATE_SCHEMA", false) {
            Ok(create_schema) => create_schema,
            Err(error) => {
                return Err(error);
            },
        };
        let historical_read_enabled: bool = match env_bool(
            env,
            "APP_HISTORICAL_READ_ENABLED",
            false,
        ) {
            Ok(enabled) => enabled,
            Err(error) => {
                return Err(error);
            },
        };
        if !metrics_addr_parses {
            return Err(ConfigError::NotSocketAddress);
        }
        let log_every_n_success: u64 = match env_u64(env, "APP_LOG_EVERY_N_SUCCESS", 1000) {
            Ok(log_every_n_success) => log_every_n_success,
            Err(error) => {
                return Err(error);
            },
        };
        Ok(
            Config {
                contact_points: leading.contact_points,
                local_dc: env_string(env, "CASSANDRA_LOCAL_DC", "dc1"),
                keyspace: env_string(env, "CASSANDRA_KEYSPACE", "zdm_test"),
                username: env_optional(env, "CASSANDRA_USERNAME"),
                password: env_optional(env, "CASSANDRA_PASSWORD"),
                consistency: leading.consistency,
                consistency_name: leading.consistency_name,
                tls_enabled: false,
                create_schema,
                rps_per_pod,
                read_ratio: leading.read_ratio,
                write_ratio: leading.write_ratio,
                payload_bytes,
                workers,
                buckets,
                historical_read_enabled,
                historical_buckets,
                reconnect_after_consecutive_errors,
                ready_max_age,
                metrics_addr: Config::metrics_addr_text(env),
                log_every_n_success,
                writer_id: env_string(env, "HOSTNAME", "local"),
            },
        )
    }
}

/// Reading a list back that was written with commas gives its entries again, if
/// there are any, none is blank or has white space around it, and none holds a comma.
pub proof fn law_list_reads_back(entries: Seq<Seq<char>>)
    requires
        entries.len() > 0,
        forall|i: int|
            0 <= i < entries.len() ==> {
                &&& (#[trigger] entries[i]).len() > 0
                &&& crate::text::trim(entries[i]) == entries[i]
                &&& !entries[i].contains(',')
            },
    ensures
        list_entries(crate::text::join(entries, ","@)) == entries,
{
    reveal_strlit(",");
    assert(","@ == seq![',']);
    crate::text::law_split_undoes_join(entries, ',');
    let trimmed_entries = entries.map_values(|entry: Seq<char>| crate::text::trim(entry));
    assert(trimmed_entries == entries);
    lemma_filter_keeps_all(entries, |entry: Seq<char>| entry.len() > 0);
}

proof fn lemma_filter_keeps_all(s: Seq<Seq<char>>, kept: spec_fn(Seq<char>) -> bool)
    requires
        forall|i: int| 0 <= i < s.len() ==> kept(#[trigger] s[i]),
    ensures
        s.filter(kept) == s,
    decreases s.len(),
{
    reveal(Seq::filter);
    if s.len() > 0 {
        lemma_filter_keeps_all(s.drop_last(), kept);
        assert(s.drop_last().push(s.last()) == s);
    }
}

/// No entry of a list is blank, has white space around it or holds a comma.
pub proof fn law_entries_are_clean(list: Seq<char>, i: int)
    requires
        0 <= i < list_entries(list).len(),
    ensures
        list_entries(list)[i].len() > 0,
        crate::text::trim(list_entries(list)[i]) == list_entries(list)[i],
        !list_entries(list)[i].contains(','),
{
    let pieces = crate::text::split(list, ',');
    let trimmed_pieces = pieces.map_values(|entry: Seq<char>| crate::text::trim(entry));
    let kept = |entry: Seq<char>| entry.len() > 0;
    let entry = list_entries(list)[i];
    trimmed_pieces.lemma_filter_pred(kept, i);
    assert(list_entries(list).contains(entry));
    trimmed_pieces.lemma_filter_contains_rev(kept, entry);
    let j = trimmed_pieces.index_of(entry);
    assert(entry == crate::text::trim(pieces[j]));
    crate::text::law_trim_is_idempotent(pieces[j]);
    crate::text::law_pieces_hold_no_separator(list, ',', j);
    if entry.contains(',') {
        crate::text::law_trim_adds_nothing(pieces[j], ',');
    }
}

/// Two lists with a comma between them have the entries of the first and then those of
/// the second. A list without a comma has one entry, what is left of it without the
/// white space around it, and none where nothing is left.
pub proof fn law_lists_are_read_entry_by_entry(first: Seq<char>, second: Seq<char>)
    ensures
        list_entries(first + seq![','] + second) == list_entries(first) + list_entries(second),
        !first.contains(',') ==> list_entries(first) == (if crate::text::trim(first).len() > 0 {
            seq![crate::text::trim(first)]
        } else {
            seq![]
        }),
{
    let trimming = |entry: Seq<char>| crate::text::trim(entry);
    let kept = |entry: Seq<char>| entry.len() > 0;
    let a = crate::text::split(first, ',');
    let b = crate::text::split(second, ',');
    crate::text::law_split_at_a_separator(first, second, ',');
    assert((a + b).map_values(trimming) =~= a.map_values(trimming) + b.map_values(trimming));
    Seq::filter_distributes_over_add(a.map_values(trimming), b.map_values(trimming), kept);
    if !first.contains(',') {
        crate::text::law_unseparated_text_is_one_piece(first, ',');
        let one = seq![crate::text::trim(first)];
        assert(seq![first].map_values(trimming) =~= one);
        reveal_with_fuel(Seq::filter, 2);
        assert(one.drop_last() =~= Seq::<Seq<char>>::empty());
        assert(one.filter(kept) =~= (if crate::text::trim(first).len() > 0 {
            one
        } else {
            seq![]
        }));
    }
}

/// The name of a level.
pub open spec fn level_name(level: Consistency) -> Seq<char> {
    match level {
        Consistency::One => "ONE"@,
        Consistency::LocalOne => "LOCAL_ONE"@,
        Consistency::Quorum => "QUORUM"@,
        Consistency::LocalQuorum => "LOCAL_QUORUM"@,
    }
}

/// Each level has its name, and no other text is the name of one. In ASCII it may be
/// written in any case.
pub proof fn law_levels_have_names(name: Seq<char>, level: Consistency)
    ensures
        consistency_level(name) == Some(level) <==> name == level_name(level),
        crate::environment::all_ascii(name) ==> (consistency_level(uppercase(name)) == Some(level)
            <==> crate::environment::same_but_for_case(name, level_name(level))),
{
    reveal_strlit("ONE");
    reveal_strlit("LOCAL_ONE");
    reveal_strlit("QUORUM");
    reveal_strlit("LOCAL_QUORUM");
    assert("ONE"@.len() == 3 && "LOCAL_ONE"@.len() == 9 && "QUORUM"@.len() == 6
        && "LOCAL_QUORUM"@.len() == 12);
    if crate::environment::all_ascii(name) {
        crate::environment::law_upper_case(name, level_name(level));
    }
}

/// Whether `text` is what the variable `name` holds, or `default` where it is unset.
pub open spec fn is_text_of(
    vars: Seq<(Seq<char>, Seq<char>)>,
    name: Seq<char>,
    default: Seq<char>,
    text: Seq<char>,
) -> bool {
    match crate::environment::lookup(vars, name) {
        Some(value) => text == value,
        None => text == default,
    }
}

/// Whether `text` is what the variable `name` holds without white space around it, and
/// none where it is unset or blank.
pub open spec fn is_optional_text_of(
    vars: Seq<(Seq<char>, Seq<char>)>,
    name: Seq<char>,
    text: Option<Seq<char>>,
) -> bool {
    match crate::environment::lookup(vars, name) {
        Some(value) => if crate::text::trim(value).len() > 0 {
            text == Some(crate::text::trim(value))
        } else {
            text is None
        },
        None => text is None,
    }
}

/// Whether `number` is the one that the variable `name` holds, or `default` where it is
/// unset.
pub open spec fn is_number_of(
    vars: Seq<(Seq<char>, Seq<char>)>,
    name: Seq<char>,
    default: nat,
    number: nat,
) -> bool {
    match crate::environment::lookup(vars, name) {
        Some(value) => crate::text::unsigned(value, number) == Some(number),
        None => number == default,
    }
}

/// Whether `truth` is what the variable `name` says in any case, and false where it is
/// unset.
pub open spec fn is_truth_of(
    vars: Seq<(Seq<char>, Seq<char>)>,
    name: Seq<char>,
    truth: bool,
) -> bool {
    match crate::environment::lookup(vars, name) {
        Some(value) => crate::environment::all_ascii(value) ==> if truth {
            crate::environment::says_true(value)
        } else {
            crate::environment::says_false(value)
        },
        None => !truth,
    }
}

/// Each variable that is set reaches its field, and each field whose variable is unset
/// has its default.
pub proof fn law_variables_reach_their_fields(
    env: Environment,
    metrics_addr_parses: bool,
    config: Config,
)
    requires
        call_ensures(
            Config::from_env,
            (&env, metrics_addr_parses),
            Ok::<Config, ConfigError>(config),
        ),
    ensures
        forall|list: Seq<char>| #[trigger]
            is_text_of(env@, "CASSANDRA_CONTACT_POINTS"@, "127.0.0.1:9042"@, list)
                ==> config.contact_points.deep_view() == list_entries(list),
        is_text_of(env@, "CASSANDRA_LOCAL_DC"@, "dc1"@, config.local_dc@),
        is_text_of(env@, "CASSANDRA_KEYSPACE"@, "zdm_test"@, config.keyspace@),
        is_optional_text_of(env@, "CASSANDRA_USERNAME"@, config.username.deep_view()),
        is_optional_text_of(env@, "CASSANDRA_PASSWORD"@, config.password.deep_view()),
        forall|name: Seq<char>| #[trigger]
            is_text_of(env@, "CASSANDRA_CONSISTENCY"@, "LOCAL_QUORUM"@, name)
                ==> config.consistency_name@ == uppercase(name) && config.consistency_name@
                == level_name(config.consistency),
        !config.tls_enabled,
        is_truth_of(env@, "CASSANDRA_TLS_ENABLED"@, false),
        is_truth_of(env@, "APP_CREATE_SCHEMA"@, config.create_schema),
        crate::environment::lookup(env@, "APP_RPS_PER_POD"@) is Some ==> is_number_of(
            env@,
            "APP_RPS_PER_POD"@,
            1000,
            config.rps_per_pod as nat,
        ),
        crate::environment::lookup(env@, "APP_RPS_PER_POD"@) is None ==> is_number_of(
            env@,
            "APP_RPS"@,
            1000,
            config.rps_per_pod as nat,
        ),
        is_number_of(env@, "APP_READ_RATIO"@, 70, config.read_ratio as nat),
        is_number_of(env@, "APP_WRITE_RATIO"@, 30, config.write_ratio as nat),
        is_number_of(env@, "APP_PAYLOAD_BYTES"@, 4096, config.payload_bytes as nat),
        is_number_of(env@, "APP_WORKERS"@, 32, config.workers as nat),
        is_number_of(env@, "APP_BUCKETS"@, 256, config.buckets as nat),
        is_truth_of(env@, "APP_HISTORICAL_READ_ENABLED"@, config.historical_read_enabled),
        is_number_of(
            env@,
            "APP_HISTORICAL_BUCKETS"@,
            config.buckets as nat,
            config.historical_buckets as nat,
        ),
        is_number_of(
            env@,
            "APP_RECONNECT_AFTER_CONSECUTIVE_ERRORS"@,
            10,
            config.reconnect_after_consecutive_errors as nat,
        ),
        is_number_of(env@, "APP_READY_MAX_AGE_SECONDS"@, 30, config.ready_max_age as nat),
        is_text_of(env@, "APP_METRICS_ADDR"@, "0.0.0.0:8080"@, config.metrics_addr@),
        is_number_of(env@, "APP_LOG_EVERY_N_SUCCESS"@, 1000, config.log_every_n_success as nat),
        is_text_of(env@, "HOSTNAME"@, "local"@, config.writer_id@),
        config.contact_points@.len() > 0,
        1 <= config.read_ratio + config.write_ratio,
        1 <= config.rps_per_pod <= 1_000_000,
        1 <= config.workers <= 10_000,
        1 <= config.buckets <= 1_000_000,
        1 <= config.historical_buckets <= 1_000_000,
        1 <= config.payload_bytes <= 10_485_760,
        config.reconnect_after_consecutive_errors <= 1_000_000,
        1 <= config.ready_max_age <= 3600,
        metrics_addr_parses,
{
    let vars = env@;
    assert(fault(vars, metrics_addr_parses) is None);
    assert(settings_of(vars, config));
    crate::environment::law_truth_values(vars, "CASSANDRA_TLS_ENABLED"@, false);
    crate::environment::law_truth_values(vars, "APP_CREATE_SCHEMA"@, false);
    crate::environment::law_truth_values(vars, "APP_HISTORICAL_READ_ENABLED"@, false);
    law_levels_have_names(config.consistency_name@, config.consistency);
}

/// What is wrong with the number in the variable `name`, where the numbers of its type
/// go up to `limit` and the settings allow those from `min` to `max`.
pub open spec fn wrong_number(
    vars: Seq<(Seq<char>, Seq<char>)>,
    name: Seq<char>,
    setting: Seq<char>,
    limit: nat,
    min: nat,
    max: nat,
) -> Option<ConfigFault> {
    match crate::environment::lookup(vars, name) {
        Some(value) => match crate::text::unsigned(value, limit) {
            Some(number) => if number < min || number > max {
                Some(ConfigFault::Range { name: setting, min, max, value: number })
            } else {
                None
            },
            None => Some(ConfigFault::NotUnsigned { name }),
        },
        None => None,
    }
}

/// What is wrong with the truth value in the variable `name`, where it is in ASCII.
pub open spec fn wrong_truth(
    vars: Seq<(Seq<char>, Seq<char>)>,
    name: Seq<char>,
) -> Option<ConfigFault> {
    match crate::environment::lookup(vars, name) {
        Some(value) => if crate::environment::says_true(value)
            || crate::environment::says_false(value) {
            None
        } else {
            Some(ConfigFault::NotBoolean { name })
        },
        None => None,
    }
}

/// What the `k`th of the eighteen checks of the settings finds.
pub open spec fn found_by_check(
    vars: Seq<(Seq<char>, Seq<char>)>,
    metrics_addr_parses: bool,
    k: int,
) -> Option<ConfigFault> {
    let limit32 = 0xffff_ffffnat;
    let limit64 = 0xffff_ffff_ffff_ffffnat;
    let word = usize::MAX as nat;
    let ratio = |name: Seq<char>, default: nat|
        match crate::environment::lookup(vars, name) {
            Some(value) => crate::text::unsigned(value, limit32),
            None => Some(default),
        };
    let level = uppercase(
        match crate::environment::lookup(vars, "CASSANDRA_CONSISTENCY"@) {
            Some(value) => value,
            None => "LOCAL_QUORUM"@,
        },
    );
    if k == 0 {
        match crate::environment::lookup(vars, "CASSANDRA_CONTACT_POINTS"@) {
            Some(list) if list_entries(list).len() == 0 => Some(ConfigFault::NoContactPoints),
            _ => None,
        }
    } else if k == 1 {
        if level == "ONE"@ || level == "LOCAL_ONE"@ || level == "QUORUM"@ || level
            == "LOCAL_QUORUM"@ {
            None
        } else {
            Some(ConfigFault::UnsupportedConsistency { level })
        }
    } else if k == 2 {
        wrong_truth(vars, "CASSANDRA_TLS_ENABLED"@)
    } else if k == 3 {
        match crate::environment::lookup(vars, "CASSANDRA_TLS_ENABLED"@) {
            Some(value) if crate::environment::says_true(value) => Some(
                ConfigFault::TlsUnsupported,
            ),
            _ => None,
        }
    } else if k == 4 {
        wrong_number(vars, "APP_READ_RATIO"@, "APP_READ_RATIO"@, limit32, 0, limit32)
    } else if k == 5 {
        wrong_number(vars, "APP_WRITE_RATIO"@, "APP_WRITE_RATIO"@, limit32, 0, limit32)
    } else if k == 6 {
        if ratio("APP_READ_RATIO"@, 70) == Some(0nat) && ratio("APP_WRITE_RATIO"@, 30) == Some(
            0nat,
        ) {
            Some(ConfigFault::NoOperationWeight)
        } else {
            None
        }
    } else if k == 7 {
        if crate::environment::lookup(vars, "APP_RPS_PER_POD"@) is Some {
            wrong_number(
                vars,
                "APP_RPS_PER_POD"@,
                "APP_RPS_PER_POD"@,
                limit64,
                1,
                1_000_000,
            )
        } else {
            wrong_number(vars, "APP_RPS"@, "APP_RPS_PER_POD"@, limit64, 1, 1_000_000)
        }
    } else if k == 8 {
        wrong_number(vars, "APP_WORKERS"@, "APP_WORKERS"@, word, 1, 10_000)
    } else if k == 9 {
        wrong_number(vars, "APP_BUCKETS"@, "APP_BUCKETS"@, word, 1, 1_000_000)
    } else if k == 10 {
        wrong_number(
            vars,
            "APP_HISTORICAL_BUCKETS"@,
            "APP_HISTORICAL_BUCKETS"@,
            word,
            1,
            1_000_000,
        )
    } else if k == 11 {
        wrong_number(vars, "APP_PAYLOAD_BYTES"@, "APP_PAYLOAD_BYTES"@, word, 1, 10_485_760)
    } else if k == 12 {
        wrong_number(
            vars,
            "APP_RECONNECT_AFTER_CONSECUTIVE_ERRORS"@,
            "APP_RECONNECT_AFTER_CONSECUTIVE_ERRORS"@,
            limit64,
            0,
            1_000_000,
        )
    } else if k == 13 {
        wrong_number(
            vars,
            "APP_READY_MAX_AGE_SECONDS"@,
            "APP_READY_MAX_AGE_SECONDS"@,
            limit64,
            1,
            3600,
        )
    } else if k == 14 {
        wrong_truth(vars, "APP_CREATE_SCHEMA"@)
    } else if k == 15 {
        wrong_truth(vars, "APP_HISTORICAL_READ_ENABLED"@)
    } else if k == 16 {
        if metrics_addr_parses {
            None
        } else {
            Some(ConfigFault::NotSocketAddress)
        }
    } else {
        wrong_number(
            vars,
            "APP_LOG_EVERY_N_SUCCESS"@,
            "APP_LOG_EVERY_N_SUCCESS"@,
            limit64,
            0,
            limit64,
        )
    }
}

/// Whether the truth values that are set are in ASCII.
pub open spec fn truths_in_ascii(vars: Seq<(Seq<char>, Seq<char>)>) -> bool {
    forall|name: Seq<char>|
        name == "CASSANDRA_TLS_ENABLED"@ || name == "APP_CREATE_SCHEMA"@ || name
            == "APP_HISTORICAL_READ_ENABLED"@ ==> (#[trigger] crate::environment::lookup(
            vars,
            name,
        ) matches Some(value) ==> crate::environment::all_ascii(value))
}

/// The first check that finds something is the one whose error is returned.
pub proof fn law_the_first_wrong_setting_is_reported(
    env: Environment,
    metrics_addr_parses: bool,
    r: Result<Config, ConfigError>,
    k: int,
)
    requires
        call_ensures(Config::from_env, (&env, metrics_addr_parses), r),
        truths_in_ascii(env@),
        0 <= k < 18,
        found_by_check(env@, metrics_addr_parses, k) is Some,
        forall|j: int|
            0 <= j < k ==> (#[trigger] found_by_check(env@, metrics_addr_parses, j)) is None,
    ensures
        r matches Err(error) && Some(error@) == found_by_check(env@, metrics_addr_parses, k),
{
    lemma_checks(env@, metrics_addr_parses, k);
}

/// Settings in which no check finds anything are accepted.
pub proof fn law_settings_with_nothing_wrong_are_accepted(
    env: Environment,
    metrics_addr_parses: bool,
    r: Result<Config, ConfigError>,
)
    requires
        call_ensures(Config::from_env, (&env, metrics_addr_parses), r),
        truths_in_ascii(env@),
        forall|j: int|
            0 <= j < 18 ==> (#[trigger] found_by_check(env@, metrics_addr_parses, j)) is None,
    ensures
        r is Ok,
{
    lemma_checks(env@, metrics_addr_parses, 18);
}

proof fn lemma_checks(vars: Seq<(Seq<char>, Seq<char>)>, metrics_addr_parses: bool, k: int)
    requires
        truths_in_ascii(vars),
        0 <= k <= 18,
        k < 18 ==> found_by_check(vars, metrics_addr_parses, k) is Some,
        forall|j: int|
            0 <= j < k ==> (#[trigger] found_by_check(vars, metrics_addr_parses, j)) is None,
    ensures
        fault(vars, metrics_addr_parses) == (if k < 18 {
            found_by_check(vars, metrics_addr_parses, k)
        } else {
            None
        }),
{
    crate::environment::law_truth_values(vars, "CASSANDRA_TLS_ENABLED"@, false);
    crate::environment::law_truth_values(vars, "APP_CREATE_SCHEMA"@, false);
    crate::environment::law_truth_values(vars, "APP_HISTORICAL_READ_ENABLED"@, false);
    assert(crate::environment::lookup(vars, "CASSANDRA_TLS_ENABLED"@) matches Some(value)
        ==> crate::environment::all_ascii(value));
    assert(crate::environment::lookup(vars, "APP_CREATE_SCHEMA"@) matches Some(value)
        ==> crate::environment::all_ascii(value));
    assert(crate::environment::lookup(vars, "APP_HISTORICAL_READ_ENABLED"@) matches Some(value)
        ==> crate::environment::all_ascii(value));
    lemma_default_point();
    assert(k > 0 ==> found_by_check(vars, metrics_addr_parses, 0) is None);
    assert(k > 1 ==> found_by_check(vars, metrics_addr_parses, 1) is None);
    assert(k > 2 ==> found_by_check(vars, metrics_addr_parses, 2) is None);
    assert(k > 3 ==> found_by_check(vars, metrics_addr_parses, 3) is None);
    assert(k > 4 ==> found_by_check(vars, metrics_addr_parses, 4) is None);
    assert(k > 5 ==> found_by_check(vars, metrics_addr_parses, 5) is None);
    assert(k > 6 ==> found_by_check(vars, metrics_addr_parses, 6) is None);
    assert(k > 7 ==> found_by_check(vars, metrics_addr_parses, 7) is None);
    assert(k > 8 ==> found_by_check(vars, metrics_addr_parses, 8) is None);
    assert(k > 9 ==> found_by_check(vars, metrics_addr_parses, 9) is None);
    assert(k > 10 ==> found_by_check(vars, metrics_addr_parses, 10) is None);
    assert(k > 11 ==> found_by_check(vars, metrics_addr_parses, 11) is None);
    assert(k > 12 ==> found_by_check(vars, metrics_addr_parses, 12) is None);
    assert(k > 13 ==> found_by_check(vars, metrics_addr_parses, 13) is None);
    assert(k > 14 ==> found_by_check(vars, metrics_addr_parses, 14) is None);
    assert(k > 15 ==> found_by_check(vars, metrics_addr_parses, 15) is None);
    assert(k > 16 ==> found_by_check(vars, metrics_addr_parses, 16) is None);
    assert(k > 17 ==> found_by_check(vars, metrics_addr_parses, 17) is None);
}

/// The contact point that counts where none is set is a list of itself.
proof fn lemma_default_point()
    ensures
        list_entries("127.0.0.1:9042"@) == seq!["127.0.0.1:9042"@],
{
    let point = "127.0.0.1:9042"@;
    reveal_strlit("127.0.0.1:9042");
    crate::text::law_trimmed(point);
    assert(!point.contains(','));
    let points = seq![point];
    law_list_reads_back(points);
    assert(crate::text::join(points, ","@) == point);
}

/// With none of its variables set the program has usable settings, the documented
/// ones.
pub proof fn law_defaults(vars: Seq<(Seq<char>, Seq<char>)>)
    requires
        forall|name: Seq<char>| #[trigger] crate::environment::lookup(vars, name) is None,
    ensures
        !ratios_overflow(vars),
        fault(vars, true) is None,
        contact_points_setting(vars) == seq!["127.0.0.1:9042"@],
        text_setting(vars, "CASSANDRA_LOCAL_DC"@, "dc1"@) == "dc1"@,
        text_setting(vars, "CASSANDRA_KEYSPACE"@, "zdm_test"@) == "zdm_test"@,
        optional_setting(vars, "CASSANDRA_USERNAME"@) is None,
        optional_setting(vars, "CASSANDRA_PASSWORD"@) is None,
        consistency_setting(vars) == "LOCAL_QUORUM"@,
        consistency_level(consistency_setting(vars)) == Some(Consistency::LocalQuorum),
        bool_setting(vars, "APP_CREATE_SCHEMA"@, false) == Some(false),
        rps_setting(vars) == Some(1000nat),
        read_ratio_setting(vars) == Some(70nat),
        write_ratio_setting(vars) == Some(30nat),
        payload_setting(vars) == Some(4096nat),
        workers_setting(vars) == Some(32nat),
        buckets_setting(vars) == Some(256nat),
        historical_buckets_setting(vars) == Some(256nat),
        bool_setting(vars, "APP_HISTORICAL_READ_ENABLED"@, false) == Some(false),
        reconnect_setting(vars) == Some(10nat),
        ready_age_setting(vars) == Some(30nat),
        metrics_addr_setting(vars) == "0.0.0.0:8080"@,
        log_every_setting(vars) == Some(1000nat),
        text_setting(vars, "HOSTNAME"@, "local"@) == "local"@,
{
    lemma_default_point();
    let level = "LOCAL_QUORUM"@;
    reveal_strlit("LOCAL_QUORUM");
    reveal_strlit("ONE");
    reveal_strlit("LOCAL_ONE");
    reveal_strlit("QUORUM");
    assert(crate::environment::ascii_uppercase(level) == level);
    assert(level.len() != "ONE"@.len() && level.len() != "LOCAL_ONE"@.len() && level.len()
        != "QUORUM"@.len());
}

/// The environment that asks for TLS is refused.
pub proof fn law_tls_is_refused(vars: Seq<(Seq<char>, Seq<char>)>, metrics_addr_parses: bool)
    requires
        bool_setting(vars, "CASSANDRA_TLS_ENABLED"@, false) == Some(true),
    ensures
        fault(vars, metrics_addr_parses) is Some,
{
}

/// `APP_RPS` counts only where `APP_RPS_PER_POD` is unset.
pub proof fn law_rps_falls_back(vars: Seq<(Seq<char>, Seq<char>)>)
    ensures
        match crate::environment::lookup(vars, "APP_RPS_PER_POD"@) {
            Some(value) => rps_setting(vars) == crate::text::unsigned(value, u64::MAX as nat),
            None => rps_setting(vars) == number_setting(
                vars,
                "APP_RPS"@,
                1000,
                u64::MAX as nat,
            ),
        },
{
}

/// A number that is left out is read as if its default had been written in decimal.
pub proof fn law_defaults_read_as_written(
    vars: Seq<(Seq<char>, Seq<char>)>,
    name: Seq<char>,
    default: nat,
    max: nat,
)
    requires
        default <= max,
    ensures
        number_setting(vars, name, default, max) == crate::text::unsigned(
            text_setting(vars, name, crate::text::decimal(default)),
            max,
        ),
{
    crate::text::law_decimal_reads_back(default, max);
}

} // verus!
