use mini_cassandra_loadgen::cassandra::{
    build_action, check_schema, connect_plan, create_schema, next_phase, prepare_statements,
    BuildAction, BuildPhase, ClientInitError, Reconnect, ReconnectAction,
};
use mini_cassandra_loadgen::config::{Config, Consistency};
use mini_cassandra_loadgen::environment::Environment;
use mini_cassandra_loadgen::http::{healthz, readyz};
use mini_cassandra_loadgen::metrics::{Counter, Metric};
use mini_cassandra_loadgen::state::{
    mark_cassandra_ready, mark_cassandra_unready, mark_success, ring_capacity, set_reason,
    set_unready_reason, RuntimeState, Severity, Stats,
};
use mini_cassandra_loadgen::util::{
    random_payload, timestamp_millis_of, timestamp_of, unix_timestamp, unix_timestamp_millis,
};
use mini_cassandra_loadgen::workload::{finish_write, ReadSource, WrittenKey};
use rand::rngs::SmallRng;
use rand::SeedableRng;

fn config() -> Config {
    Config::from_env(&Environment { vars: Vec::new() }, true).unwrap()
}

fn fresh() -> RuntimeState<u8> {
    RuntimeState::new(&config(), 100, &mut Vec::new())
}

fn cql(action: BuildAction) -> String {
    match action {
        BuildAction::Query(cql) => cql,
        BuildAction::Prepare { cql, .. } => cql,
        _ => String::new(),
    }
}

#[test]
fn the_state_starts_empty() {
    let mut metrics = vec![Metric::Count(Counter::Writes)];
    let state: RuntimeState<u8> = RuntimeState::new(&config(), 77, &mut metrics);
    assert_eq!(
        metrics,
        vec![
            Metric::Count(Counter::Writes),
            Metric::LastSuccess(0),
            Metric::CassandraReady(false),
        ]
    );
    assert_eq!(state.cassandra, None);
    assert_eq!(state.last_success_timestamp, 0);
    assert_eq!(state.consecutive_errors, 0);
    assert_eq!(state.last_unready_reason, "cassandra_client_not_ready");
    assert_eq!(state.stats, Stats { last_log_timestamp: 77, ..Stats::default() });
    assert!(state.ring.get(0).is_none());
}

#[test]
fn the_ring_has_room_for_a_minute() {
    let mut config = config();
    for (rps, room) in [
        (1, 4096),
        (68, 4096),
        (69, 4140),
        (1000, 60_000),
        (16_666, 999_960),
        (16_667, 1_000_000),
        (1_000_000, 1_000_000),
        (u64::MAX, 1_000_000),
    ] {
        config.rps_per_pod = rps;
        assert_eq!(ring_capacity(&config), room);
    }
}

#[test]
fn a_success_ends_the_row_of_failures() {
    let (mut last, mut errors, mut metrics) = (3, 9, Vec::new());
    mark_success(&mut last, &mut errors, 55, &mut metrics);
    assert_eq!((last, errors), (55, 0));
    assert_eq!(metrics, vec![Metric::LastSuccess(55)]);
}

#[test]
fn clients_come_and_go() {
    let mut state = fresh();
    state.consecutive_errors = 4;
    let mut metrics = Vec::new();
    mark_cassandra_ready(&mut state, 1, &mut metrics);
    assert_eq!((state.cassandra, state.consecutive_errors), (Some(1), 0));
    assert_eq!(state.last_unready_reason, "cassandra_client_not_ready");
    let change = mark_cassandra_unready(&mut state, "why", &mut metrics).unwrap();
    assert_eq!((change.previous.as_str(), change.reason.as_str()), ("cassandra_client_not_ready", "why"));
    assert_eq!(state.cassandra, None);
    assert_eq!(state.last_unready_reason, "why");
    assert_eq!(metrics, vec![Metric::CassandraReady(true), Metric::CassandraReady(false)]);
}

#[test]
fn reasons_are_logged_when_they_change() {
    let mut reason = "a".to_string();
    assert!(set_reason(&mut reason, "a").is_none());
    let change = set_reason(&mut reason, "connect_failed").unwrap();
    assert_eq!(change.severity, Severity::Warn);
    let change = set_reason(&mut reason, "cassandra_operations_stale").unwrap();
    assert_eq!((change.previous.as_str(), change.severity), ("connect_failed", Severity::Info));
    let change = set_reason(&mut reason, "cassandra_client_not_ready").unwrap();
    assert_eq!(change.severity, Severity::Info);
    assert_eq!(reason, "cassandra_client_not_ready");
    let mut state = fresh();
    assert!(set_unready_reason(&mut state, "x").is_some());
    assert_eq!(state.last_unready_reason, "x");
}

#[test]
fn readiness_follows_the_last_success() {
    let mut state = fresh();
    let (reply, change) = readyz(&mut state, 30, 1000);
    assert_eq!((reply.status, reply.body.as_str()), (503, "cassandra_client_not_ready\n"));
    assert!(change.is_none());

    mark_cassandra_ready(&mut state, 1, &mut Vec::new());
    let (reply, change) = readyz(&mut state, 30, 1000);
    assert_eq!((reply.status, reply.body.as_str()), (503, "cassandra_operations_stale\n"));
    assert_eq!(change.unwrap().reason, "cassandra_operations_stale");
    assert!(readyz(&mut state, 30, 1000).1.is_none());

    let key = WrittenKey { bucket: "bucket_0".to_string(), id: 0 };
    finish_write(&mut state, &config(), key, true, 1000, &mut Vec::new());
    for (now, status) in [(990, 200), (1000, 200), (1030, 200), (1031, 503)] {
        assert_eq!(readyz(&mut state, 30, now).0.status, status);
    }
    assert_eq!(readyz(&mut state, 30, 1030).0.body, "ready\n");

    mark_cassandra_unready(&mut state, "too_many_consecutive_errors", &mut Vec::new());
    let (reply, _) = readyz(&mut state, 30, 1000);
    assert_eq!((reply.status, reply.body.as_str()), (503, "too_many_consecutive_errors\n"));
}

#[test]
fn failed_attempts_are_reported() {
    let config = config();
    let mut state = fresh();
    let mut reconnect = Reconnect::new();
    for (phase, body) in [
        (BuildPhase::Connect, "connect_failed\n"),
        (BuildPhase::CreateKeyspace, "schema_check_failed\n"),
        (BuildPhase::CheckSchema, "schema_check_failed\n"),
        (BuildPhase::PrepareSelect, "prepare_failed\n"),
    ] {
        let error = next_phase(phase, &config, false).unwrap_err();
        reconnect.failed(&mut state, &error, &mut Vec::new());
        let (reply, _) = readyz(&mut state, 30, 1000);
        assert_eq!((reply.status, reply.body.as_str()), (503, body));
    }
}

#[test]
fn the_program_says_that_it_runs() {
    assert_eq!(healthz(), "ok\n");
}

#[test]
fn statements_name_the_keyspace() {
    let mut config = config();
    config.keyspace = "ks".to_string();
    config.local_dc = "east".to_string();
    let (keyspace, table) = create_schema(&config);
    assert_eq!(
        keyspace,
        "CREATE KEYSPACE IF NOT EXISTS ks WITH replication = {'class': 'NetworkTopologyStrategy', 'east': 3}"
    );
    assert_eq!(
        table,
        "CREATE TABLE IF NOT EXISTS ks.events (
            bucket text,
            id uuid,
            created_at timestamp,
            payload text,
            writer_id text,
            version int,
            PRIMARY KEY ((bucket), id)
        )"
    );
    assert_eq!(check_schema(&config), "SELECT bucket, id FROM ks.events LIMIT 1");
    let (insert, select) = prepare_statements(&config);
    assert_eq!(
        insert,
        "INSERT INTO ks.events (bucket, id, created_at, payload, writer_id, version) VALUES (?, ?, ?, ?, ?, ?)"
    );
    assert_eq!(
        select,
        "SELECT bucket, id, created_at, payload, writer_id, version FROM ks.events WHERE bucket = ? AND id = ?"
    );
}

#[test]
fn connections_need_both_name_and_password() {
    let mut config = config();
    config.contact_points = vec!["a:1".to_string(), "b:2".to_string()];
    config.username = Some("u".to_string());
    let plan = connect_plan(&config);
    assert_eq!(plan.known_nodes, config.contact_points);
    assert_eq!((plan.datacenter.as_str(), plan.token_aware), ("dc1", true));
    assert_eq!(plan.credentials, None);
    config.password = Some("p".to_string());
    assert_eq!(
        connect_plan(&config).credentials,
        Some(("u".to_string(), "p".to_string()))
    );
    config.username = None;
    assert_eq!(connect_plan(&config).credentials, None);
}

#[test]
fn phases_lead_to_a_client() {
    let mut config = config();
    for (create_schema, expected) in [
        (
            false,
            vec![
                BuildPhase::Connect,
                BuildPhase::CheckSchema,
                BuildPhase::PrepareInsert,
                BuildPhase::PrepareSelect,
            ],
        ),
        (
            true,
            vec![
                BuildPhase::Connect,
                BuildPhase::CreateKeyspace,
                BuildPhase::CreateTable,
                BuildPhase::PrepareInsert,
                BuildPhase::PrepareSelect,
            ],
        ),
    ] {
        config.create_schema = create_schema;
        let mut phase = BuildPhase::Connect;
        let mut phases = Vec::new();
        while phase != BuildPhase::Ready {
            phases.push(phase);
            phase = next_phase(phase, &config, true).unwrap();
        }
        assert_eq!(phases, expected);
    }
}

#[test]
fn each_phase_has_its_action() {
    let mut config = config();
    config.consistency = Consistency::Quorum;
    assert!(matches!(build_action(BuildPhase::Connect, &config), BuildAction::Connect(_)));
    assert!(matches!(build_action(BuildPhase::Ready, &config), BuildAction::Finished));
    assert!(cql(build_action(BuildPhase::CreateKeyspace, &config)).starts_with("CREATE KEYSPACE"));
    assert!(cql(build_action(BuildPhase::CreateTable, &config)).starts_with("CREATE TABLE"));
    assert!(cql(build_action(BuildPhase::CheckSchema, &config)).ends_with("LIMIT 1"));
    let prepare = build_action(BuildPhase::PrepareInsert, &config);
    assert!(matches!(
        prepare,
        BuildAction::Prepare { consistency: Consistency::Quorum, .. }
    ));
    assert!(cql(prepare).starts_with("INSERT INTO zdm_test.events"));
    assert!(cql(build_action(BuildPhase::PrepareSelect, &config)).starts_with("SELECT bucket, id, "));
}

#[test]
fn each_phase_has_its_error() {
    let mut config = config();
    config.contact_points = vec!["a:1".to_string(), "b:2".to_string()];
    for (phase, reason, source) in [
        (
            BuildPhase::Connect,
            "connect_failed",
            "failed to connect to Cassandra at a:1,b:2",
        ),
        (BuildPhase::CreateKeyspace, "schema_check_failed", "failed to create keyspace"),
        (BuildPhase::CreateTable, "schema_check_failed", "failed to create events table"),
        (
            BuildPhase::CheckSchema,
            "schema_check_failed",
            "schema check failed; apply keyspace/table separately or set APP_CREATE_SCHEMA=true",
        ),
        (BuildPhase::PrepareInsert, "prepare_failed", "failed to prepare insert"),
        (BuildPhase::PrepareSelect, "prepare_failed", "failed to prepare select"),
    ] {
        let error = next_phase(phase, &config, false).unwrap_err();
        assert_eq!((error.reason, error.source.as_str()), (reason, source));
    }
}

#[test]
fn waits_double_up_to_half_a_minute() {
    let mut state = fresh();
    let mut metrics = Vec::new();
    let mut reconnect = Reconnect::new();
    assert_eq!(reconnect.next(&state, &mut metrics), ReconnectAction::Connect);
    assert_eq!(metrics, vec![Metric::Count(Counter::ConnectAttempts)]);

    let error = ClientInitError { reason: "connect_failed", source: "x".to_string() };
    metrics.clear();
    let waits: Vec<u64> =
        (0..8).map(|_| reconnect.failed(&mut state, &error, &mut metrics).0).collect();
    assert_eq!(waits, vec![1, 2, 4, 8, 16, 30, 30, 30]);
    assert_eq!(metrics, vec![Metric::CassandraReady(false); 8]);
    assert_eq!(state.last_unready_reason, "connect_failed");

    metrics.clear();
    state.consecutive_errors = 5;
    reconnect.connected(&mut state, 1, &mut metrics);
    assert_eq!(
        metrics,
        vec![Metric::Count(Counter::Connects), Metric::CassandraReady(true)]
    );
    assert_eq!((state.cassandra, state.consecutive_errors), (Some(1), 0));
    metrics.clear();
    assert_eq!(reconnect.next(&state, &mut metrics), ReconnectAction::Sleep(5));
    assert!(metrics.is_empty());
    let (wait, change) = reconnect.failed(&mut state, &error, &mut metrics);
    assert_eq!(wait, 1);
    assert!(change.is_none());
}

#[test]
fn metrics_have_names() {
    let recent = ReadSource::Recent;
    for (counter, name, source) in [
        (Counter::Reads(recent), "miniapp_reads_total", Some(recent)),
        (Counter::ReadsFound(recent), "miniapp_reads_found_total", Some(recent)),
        (Counter::ReadsEmpty(recent), "miniapp_reads_empty_total", Some(recent)),
        (Counter::ReadErrors(recent), "miniapp_read_errors_total", Some(recent)),
        (Counter::Writes, "miniapp_writes_total", None),
        (Counter::WriteErrors, "miniapp_write_errors_total", None),
        (Counter::ConnectAttempts, "miniapp_cassandra_connect_attempts_total", None),
        (Counter::Connects, "miniapp_cassandra_reconnects_total", None),
    ] {
        assert_eq!(counter.name(), name);
        assert_eq!(counter.read_source(), source);
        assert_eq!(Metric::Count(counter).name(), name);
    }
    assert_eq!(Metric::CassandraReady(true).name(), "miniapp_cassandra_ready");
    assert_eq!(Metric::LastSuccess(1).name(), "miniapp_last_success_timestamp");
}

#[test]
fn readings_of_the_clock() {
    assert_eq!(timestamp_of(Some((12, 999_999_999))), 12);
    assert_eq!(timestamp_of(None), 0);
    assert_eq!(timestamp_millis_of(Some((12, 345_999_999))), 12_345);
    assert_eq!(timestamp_millis_of(None), 0);
    assert_eq!(timestamp_millis_of(Some((u64::MAX, 0))), i64::MAX);
    assert_eq!(timestamp_millis_of(Some((9_223_372_036_854_775, 807_000_000))), i64::MAX);
    assert_eq!(timestamp_millis_of(Some((9_223_372_036_854_775, 806_000_000))), i64::MAX - 1);
}

#[test]
fn the_clock_runs() {
    let seconds = unix_timestamp();
    let millis = unix_timestamp_millis();
    assert!(seconds > 1_600_000_000);
    assert!((millis / 1000).abs_diff(seconds as i64) <= 1);
    let now = std::time::SystemTime::now()
        .duration_since(std::time::SystemTime::UNIX_EPOCH)
        .unwrap()
        .as_secs();
    assert!(now.abs_diff(seconds) <= 1);
}

#[test]
fn payloads_are_letters_and_digits() {
    let mut rng = SmallRng::seed_from_u64(1);
    assert_eq!(random_payload(0, &mut rng), "");
    let payload = random_payload(5000, &mut rng);
    assert_eq!(payload.len(), 5000);
    assert!(payload.chars().all(|c| c.is_ascii_alphanumeric()));
    assert!(('a'..='z').chain('A'..='Z').chain('0'..='9').all(|c| payload.contains(c)));
}
