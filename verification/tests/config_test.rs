use mini_cassandra_loadgen::config::{
    consistency_named, parse_list, ratios_too_large, validate_range, Config, Consistency,
};
use mini_cassandra_loadgen::environment::{
    env_bool, env_optional, env_string, env_u32, env_u64, env_u64_with_fallback, env_usize,
    truth_value, ConfigError, Environment,
};

fn env(vars: &[(&str, &str)]) -> Environment {
    Environment {
        vars: vars
            .iter()
            .map(|(name, value)| (name.to_string(), value.to_string()))
            .collect(),
    }
}

fn message(vars: &[(&str, &str)]) -> String {
    let env = env(vars);
    assert!(!ratios_too_large(&env));
    Config::from_env(&env, true).unwrap_err().message()
}

fn config(vars: &[(&str, &str)]) -> Config {
    let env = env(vars);
    assert!(!ratios_too_large(&env));
    Config::from_env(&env, true).unwrap()
}

#[test]
fn defaults_are_the_documented_ones() {
    let config = config(&[]);
    assert_eq!(config.contact_points, vec!["127.0.0.1:9042".to_string()]);
    assert_eq!(config.local_dc, "dc1");
    assert_eq!(config.keyspace, "zdm_test");
    assert_eq!(config.username, None);
    assert_eq!(config.password, None);
    assert_eq!(config.consistency, Consistency::LocalQuorum);
    assert_eq!(config.consistency_name, "LOCAL_QUORUM");
    assert!(!config.tls_enabled);
    assert!(!config.create_schema);
    assert_eq!(config.rps_per_pod, 1000);
    assert_eq!(config.read_ratio, 70);
    assert_eq!(config.write_ratio, 30);
    assert_eq!(config.payload_bytes, 4096);
    assert_eq!(config.workers, 32);
    assert_eq!(config.buckets, 256);
    assert!(!config.historical_read_enabled);
    assert_eq!(config.historical_buckets, 256);
    assert_eq!(config.reconnect_after_consecutive_errors, 10);
    assert_eq!(config.ready_max_age, 30);
    assert_eq!(config.metrics_addr, "0.0.0.0:8080");
    assert_eq!(config.log_every_n_success, 1000);
    assert_eq!(config.writer_id, "local");
}

#[test]
fn all_settings_can_be_given() {
    let config = config(&[
        ("CASSANDRA_CONTACT_POINTS", " a:1 , ,b:2,"),
        ("CASSANDRA_LOCAL_DC", "dc2"),
        ("CASSANDRA_KEYSPACE", "ks"),
        ("CASSANDRA_USERNAME", " user "),
        ("CASSANDRA_PASSWORD", "  "),
        ("CASSANDRA_CONSISTENCY", "quorum"),
        ("CASSANDRA_TLS_ENABLED", "No"),
        ("APP_CREATE_SCHEMA", "YES"),
        ("APP_RPS_PER_POD", "7"),
        ("APP_READ_RATIO", "0"),
        ("APP_WRITE_RATIO", "4294967295"),
        ("APP_PAYLOAD_BYTES", "10485760"),
        ("APP_WORKERS", "10000"),
        ("APP_BUCKETS", "12"),
        ("APP_HISTORICAL_READ_ENABLED", "y"),
        ("APP_RECONNECT_AFTER_CONSECUTIVE_ERRORS", "0"),
        ("APP_READY_MAX_AGE_SECONDS", "3600"),
        ("APP_METRICS_ADDR", "127.0.0.1:1"),
        ("APP_LOG_EVERY_N_SUCCESS", "0"),
        ("HOSTNAME", "pod-1"),
    ]);
    assert_eq!(config.contact_points, vec!["a:1".to_string(), "b:2".to_string()]);
    assert_eq!(config.contact_points_text(), "a:1,b:2");
    assert_eq!(config.local_dc, "dc2");
    assert_eq!(config.keyspace, "ks");
    assert_eq!(config.username, Some("user".to_string()));
    assert_eq!(config.password, None);
    assert_eq!(config.consistency, Consistency::Quorum);
    assert_eq!(config.consistency_name, "QUORUM");
    assert!(config.create_schema);
    assert_eq!(config.rps_per_pod, 7);
    assert_eq!((config.read_ratio, config.write_ratio), (0, u32::MAX));
    assert_eq!(config.payload_bytes, 10 * 1024 * 1024);
    assert_eq!(config.workers, 10_000);
    assert_eq!((config.buckets, config.historical_buckets), (12, 12));
    assert!(config.historical_read_enabled);
    assert_eq!(config.reconnect_after_consecutive_errors, 0);
    assert_eq!(config.ready_max_age, 3600);
    assert_eq!(config.metrics_addr, "127.0.0.1:1");
    assert_eq!(config.log_every_n_success, 0);
    assert_eq!(config.writer_id, "pod-1");
}

#[test]
fn each_error_has_its_message() {
    assert_eq!(
        message(&[("CASSANDRA_CONTACT_POINTS", " , ,")]),
        "CASSANDRA_CONTACT_POINTS must contain at least one host:port"
    );
    assert_eq!(
        message(&[("CASSANDRA_CONSISTENCY", "all")]),
        "unsupported CASSANDRA_CONSISTENCY=ALL; use ONE, LOCAL_ONE, QUORUM, or LOCAL_QUORUM"
    );
    assert_eq!(
        message(&[("CASSANDRA_CONSISTENCY", "straße")]),
        "unsupported CASSANDRA_CONSISTENCY=STRASSE; use ONE, LOCAL_ONE, QUORUM, or LOCAL_QUORUM"
    );
    assert_eq!(
        message(&[("CASSANDRA_TLS_ENABLED", "maybe")]),
        "CASSANDRA_TLS_ENABLED must be true or false"
    );
    assert_eq!(
        message(&[("CASSANDRA_TLS_ENABLED", "true")]),
        "CASSANDRA_TLS_ENABLED=true needs CA/cert settings; this mini-app only supports plain TCP"
    );
    assert_eq!(
        message(&[("APP_READ_RATIO", "0"), ("APP_WRITE_RATIO", "0")]),
        "APP_READ_RATIO + APP_WRITE_RATIO must be greater than 0"
    );
    assert_eq!(
        message(&[("APP_READ_RATIO", "4294967296")]),
        "APP_READ_RATIO must be an unsigned integer"
    );
    assert_eq!(
        message(&[("APP_WORKERS", "10001")]),
        "APP_WORKERS must be between 1 and 10000, got 10001"
    );
    assert_eq!(
        message(&[("APP_BUCKETS", "0")]),
        "APP_BUCKETS must be between 1 and 1000000, got 0"
    );
    assert_eq!(
        message(&[("APP_HISTORICAL_BUCKETS", "1000001")]),
        "APP_HISTORICAL_BUCKETS must be between 1 and 1000000, got 1000001"
    );
    assert_eq!(
        message(&[("APP_PAYLOAD_BYTES", "10485761")]),
        "APP_PAYLOAD_BYTES must be between 1 and 10485760, got 10485761"
    );
    assert_eq!(
        message(&[("APP_RECONNECT_AFTER_CONSECUTIVE_ERRORS", "1000001")]),
        "APP_RECONNECT_AFTER_CONSECUTIVE_ERRORS must be between 0 and 1000000, got 1000001"
    );
    assert_eq!(
        message(&[("APP_READY_MAX_AGE_SECONDS", "0")]),
        "APP_READY_MAX_AGE_SECONDS must be between 1 and 3600, got 0"
    );
    assert_eq!(message(&[("APP_CREATE_SCHEMA", "")]), "APP_CREATE_SCHEMA must be true or false");
    assert_eq!(
        message(&[("APP_HISTORICAL_READ_ENABLED", "2")]),
        "APP_HISTORICAL_READ_ENABLED must be true or false"
    );
    assert_eq!(
        message(&[("APP_LOG_EVERY_N_SUCCESS", "-1")]),
        "APP_LOG_EVERY_N_SUCCESS must be an unsigned integer"
    );
    let refused = Config::from_env(&env(&[]), false).unwrap_err();
    assert!(matches!(refused, ConfigError::NotSocketAddress));
    assert_eq!(refused.message(), "APP_METRICS_ADDR must be a socket address");
}

#[test]
fn the_first_error_in_order_is_reported() {
    let vars = env(&[
        ("APP_LOG_EVERY_N_SUCCESS", "x"),
        ("APP_READY_MAX_AGE_SECONDS", "x"),
        ("APP_WORKERS", "0"),
    ]);
    let error = Config::from_env(&vars, false).unwrap_err();
    assert!(matches!(
        error,
        ConfigError::Range { name: "APP_WORKERS", min: 1, max: 10_000, value: 0 }
    ));
    let vars = env(&[("APP_LOG_EVERY_N_SUCCESS", "x")]);
    assert!(matches!(
        Config::from_env(&vars, false).unwrap_err(),
        ConfigError::NotSocketAddress
    ));
    assert!(matches!(
        Config::from_env(&vars, true).unwrap_err(),
        ConfigError::NotUnsigned { name: "APP_LOG_EVERY_N_SUCCESS" }
    ));
}

#[test]
fn rps_falls_back_to_the_old_name() {
    assert_eq!(config(&[("APP_RPS", "5")]).rps_per_pod, 5);
    assert_eq!(config(&[("APP_RPS", "5"), ("APP_RPS_PER_POD", "6")]).rps_per_pod, 6);
    assert_eq!(config(&[("APP_RPS", "x"), ("APP_RPS_PER_POD", "6")]).rps_per_pod, 6);
    assert_eq!(message(&[("APP_RPS", "x")]), "APP_RPS must be an unsigned integer");
    assert_eq!(
        message(&[("APP_RPS", "5"), ("APP_RPS_PER_POD", "")]),
        "APP_RPS_PER_POD must be an unsigned integer"
    );
    assert_eq!(
        message(&[("APP_RPS", "0")]),
        "APP_RPS_PER_POD must be between 1 and 1000000, got 0"
    );
}

#[test]
fn ratios_that_do_not_add_up_are_told() {
    let large = [("APP_READ_RATIO", "4294967295"), ("APP_WRITE_RATIO", "1")];
    assert!(ratios_too_large(&env(&large)));
    let fit = [("APP_READ_RATIO", "4294967295"), ("APP_WRITE_RATIO", "0")];
    assert!(!ratios_too_large(&env(&fit)));
    let earlier = [large[0], large[1], ("CASSANDRA_TLS_ENABLED", "true")];
    assert!(!ratios_too_large(&env(&earlier)));
}

#[test]
fn lists_read_back() {
    let points = vec!["vm-1.example.com:9042".to_string(), "[::1]:9042".to_string()];
    assert_eq!(parse_list("vm-1.example.com:9042,[::1]:9042"), points);
    assert_eq!(parse_list(" vm-1.example.com:9042\t,,[::1]:9042 ,"), points);
    assert_eq!(parse_list(""), Vec::<String>::new());
}

#[test]
fn variables_are_read_one_by_one() {
    let vars = env(&[("A", "12"), ("A", "13"), ("B", " b "), ("C", "TrUe"), ("D", "")]);
    assert_eq!(vars.get("A"), Some("12".to_string()));
    assert_eq!(vars.get("E"), None);
    assert_eq!(env_string(&vars, "B", "x"), " b ");
    assert_eq!(env_string(&vars, "E", "x"), "x");
    assert_eq!(env_optional(&vars, "B"), Some("b".to_string()));
    assert_eq!(env_optional(&vars, "D"), None);
    assert_eq!(env_optional(&vars, "E"), None);
    assert!(env_bool(&vars, "C", false).unwrap());
    assert!(env_bool(&vars, "E", true).unwrap());
    assert!(matches!(
        env_bool(&vars, "D", true).unwrap_err(),
        ConfigError::NotBoolean { name: "D" }
    ));
    assert_eq!(env_u64(&vars, "A", 1).unwrap(), 12);
    assert_eq!(env_u32(&vars, "A", 1).unwrap(), 12);
    assert_eq!(env_usize(&vars, "A", 1).unwrap(), 12);
    assert_eq!(env_u64(&vars, "E", 1).unwrap(), 1);
    assert_eq!(env_u32(&vars, "E", 1).unwrap(), 1);
    assert_eq!(env_usize(&vars, "E", 1).unwrap(), 1);
    assert_eq!(env_u64_with_fallback(&vars, "E", "A", 1).unwrap(), 12);
    assert_eq!(env_u64_with_fallback(&vars, "A", "B", 1).unwrap(), 12);
    assert!(matches!(
        env_u64_with_fallback(&vars, "E", "B", 1).unwrap_err(),
        ConfigError::NotUnsigned { name: "B" }
    ));
}

#[test]
fn words_and_levels() {
    for word in ["true", "1", "yes", "y"] {
        assert_eq!(truth_value(word), Some(true));
    }
    for word in ["false", "0", "no", "n"] {
        assert_eq!(truth_value(word), Some(false));
    }
    for word in ["", "TRUE", "on", "t", " true"] {
        assert_eq!(truth_value(word), None);
    }
    assert_eq!(consistency_named("ONE"), Some(Consistency::One));
    assert_eq!(consistency_named("LOCAL_ONE"), Some(Consistency::LocalOne));
    assert_eq!(consistency_named("QUORUM"), Some(Consistency::Quorum));
    assert_eq!(consistency_named("LOCAL_QUORUM"), Some(Consistency::LocalQuorum));
    assert_eq!(consistency_named("one"), None);
}

#[test]
fn case_is_ignored_in_words_and_levels() {
    let vars = env(&[("A", "FALSE"), ("B", "fALSE")]);
    assert!(!env_bool(&vars, "A", true).unwrap());
    assert!(!env_bool(&vars, "B", true).unwrap());
    let kelvin = env(&[("A", "\u{212a}")]);
    assert!(env_bool(&kelvin, "A", true).is_err());
    assert_eq!(config(&[("CASSANDRA_CONSISTENCY", "Local_One")]).consistency_name, "LOCAL_ONE");
}

#[test]
fn ranges_hold_both_ends() {
    assert!(validate_range("X", 1, 1, 3).is_ok());
    assert!(validate_range("X", 3, 1, 3).is_ok());
    assert!(matches!(
        validate_range("X", 4, 1, 3).unwrap_err(),
        ConfigError::Range { name: "X", min: 1, max: 3, value: 4 }
    ));
    assert!(validate_range("X", 0, 1, 3).is_err());
}
