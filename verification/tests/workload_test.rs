use mini_cassandra_loadgen::config::Config;
use mini_cassandra_loadgen::environment::Environment;
use mini_cassandra_loadgen::metrics::{Counter, Metric};
use mini_cassandra_loadgen::state::{
    mark_cassandra_ready, ring_capacity, RuntimeState, Severity, REASON_TOO_MANY_ERRORS,
};
use mini_cassandra_loadgen::workload::{
    bucket_named, finish_read, finish_write, handle_operation_error, maybe_log_success,
    next_operation, operation_for, outcome_of, plan_read, plan_write, random_probe_key,
    write_operation, KeyRing, Operation, OperationLog, ReadOutcome, ReadResult, ReadSource,
    StatsLine, WrittenKey,
};
use rand::rngs::SmallRng;
use rand::SeedableRng;

fn config() -> Config {
    Config::from_env(&Environment { vars: Vec::new() }, true).unwrap()
}

fn rng() -> SmallRng {
    SmallRng::seed_from_u64(7)
}

fn key(n: usize) -> WrittenKey {
    WrittenKey { bucket: bucket_named(n), id: n as u128 }
}

fn ids(ring: &KeyRing) -> Vec<u128> {
    (0..).map_while(|i| ring.get(i)).map(|key| key.id).collect()
}

fn connected(config: &Config) -> RuntimeState<&'static str> {
    let mut metrics = Vec::new();
    let mut state = RuntimeState::new(config, 100, &mut metrics);
    mark_cassandra_ready(&mut state, "client", &mut metrics);
    state
}

fn write(state: &mut RuntimeState<&'static str>, config: &Config, ok: bool) -> OperationLog {
    finish_write(state, config, key(1), ok, 200, &mut Vec::new())
}

#[test]
fn ring_holds_the_latest_keys() {
    let mut ring = KeyRing::new(3);
    assert!(ring.random_recent(&mut rng()).is_none());
    for n in 0..5 {
        ring.push(key(n));
    }
    assert_eq!(ids(&ring), vec![2, 3, 4]);
    assert_eq!(ring.get(0).unwrap().bucket, "bucket_2");
    assert!(ring.get(3).is_none());
}

#[test]
fn ring_without_room_keeps_everything_it_gets() {
    let mut ring = KeyRing::new(0);
    ring.push(key(1));
    ring.push(key(2));
    assert_eq!(ids(&ring), vec![1, 2]);
}

#[test]
fn recent_keys_come_from_the_ring() {
    let mut ring = KeyRing::new(10);
    for n in 0..10 {
        ring.push(key(n));
    }
    let mut rng = rng();
    let mut seen = [false; 10];
    for _ in 0..500 {
        let key = ring.random_recent(&mut rng).unwrap();
        assert_eq!(key.bucket, format!("bucket_{}", key.id));
        seen[key.id as usize] = true;
    }
    assert_eq!(seen, [true; 10]);
}

#[test]
fn bucket_names_differ() {
    assert_eq!(bucket_named(0), "bucket_0");
    assert_eq!(bucket_named(255), "bucket_255");
    assert_eq!(bucket_named(999_999), "bucket_999999");
}

#[test]
fn read_sources_have_names() {
    assert_eq!(ReadSource::Recent.as_str(), "recent");
    assert_eq!(ReadSource::RandomMissProbe.as_str(), "random_miss_probe");
}

#[test]
fn probes_spread_over_the_buckets() {
    let mut config = config();
    config.buckets = 2;
    config.historical_buckets = 3;
    let mut rng = rng();
    let mut seen = [false; 3];
    for _ in 0..200 {
        let key = random_probe_key(&config, &mut rng);
        seen[key.bucket["bucket_".len()..].parse::<usize>().unwrap()] = true;
        assert_eq!(uuid::Uuid::from_u128(key.id).get_version_num(), 4);
        assert_eq!(uuid::Uuid::from_u128(key.id).get_variant(), uuid::Variant::RFC4122);
    }
    assert_eq!(seen, [true, true, false]);
    config.historical_read_enabled = true;
    for _ in 0..200 {
        let key = random_probe_key(&config, &mut rng);
        seen[key.bucket["bucket_".len()..].parse::<usize>().unwrap()] = true;
    }
    assert_eq!(seen, [true, true, true]);
    assert_ne!(
        random_probe_key(&config, &mut rng).id,
        random_probe_key(&config, &mut rng).id
    );
}

#[test]
fn ratios_are_weights() {
    let mut config = config();
    config.read_ratio = 3;
    config.write_ratio = 2;
    let reads = (0..5).filter(|dice| operation_for(&config, *dice) == Operation::Read).count();
    assert_eq!(reads, 3);
    assert_eq!(operation_for(&config, 2), Operation::Read);
    assert_eq!(operation_for(&config, 3), Operation::Write);
}

#[test]
fn workers_wait_for_a_client() {
    let mut config = config();
    let mut rng = rng();
    let mut metrics = Vec::new();
    let idle: RuntimeState<u8> = RuntimeState::new(&config, 1, &mut metrics);
    assert_eq!(next_operation(&idle, &config, &mut rng), None);
    let state = connected(&config);
    let mut counts = [0, 0];
    for _ in 0..1000 {
        match next_operation(&state, &config, &mut rng).unwrap() {
            Operation::Read => counts[0] += 1,
            Operation::Write => counts[1] += 1,
        }
    }
    assert!(counts[0] > 600 && counts[1] > 200);
    config.read_ratio = 0;
    assert_eq!(next_operation(&state, &config, &mut rng), Some(Operation::Write));
    config.read_ratio = 1;
    config.write_ratio = 0;
    assert_eq!(next_operation(&state, &config, &mut rng), Some(Operation::Read));
}

#[test]
fn writes_insert_new_rows() {
    let mut config = config();
    config.payload_bytes = 300;
    config.writer_id = "pod".to_string();
    let mut rng = rng();
    let write = plan_write(&config, 1234, &mut rng);
    assert!(write.key.bucket.starts_with("bucket_"));
    assert_eq!(write.created_at, 1234);
    assert_eq!(write.payload.len(), 300);
    assert!(write.payload.bytes().all(|b| b.is_ascii_alphanumeric()));
    assert_eq!(write.writer_id, "pod");
    assert_eq!(write.version, 1);
    assert_ne!(plan_write(&config, 1234, &mut rng).payload, write.payload);
    let fixed = write_operation(&config, key(5), -1, "p".to_string());
    assert_eq!((fixed.key.id, fixed.created_at, fixed.version), (5, -1, 1));
    assert_eq!((fixed.payload.as_str(), fixed.writer_id.as_str()), ("p", "pod"));
}

#[test]
fn reads_ask_for_recent_keys_where_there_are_any() {
    let config = config();
    let mut rng = rng();
    let mut ring = KeyRing::new(4);
    assert_eq!(plan_read(&config, &ring, true, &mut rng).1, ReadSource::RandomMissProbe);
    ring.push(key(9));
    let (found, source) = plan_read(&config, &ring, true, &mut rng);
    assert_eq!((found.id, source), (9, ReadSource::Recent));
    assert_eq!(found.bucket, "bucket_9");
    let (probe, source) = plan_read(&config, &ring, false, &mut rng);
    assert_eq!(source, ReadSource::RandomMissProbe);
    assert_ne!(probe.id, 9);
}

#[test]
fn ends_of_reads_are_told_apart() {
    let recent = ReadSource::Recent;
    let probe = ReadSource::RandomMissProbe;
    assert_eq!(outcome_of(recent, ReadResult::Answered(Some(1))), ReadOutcome::Found);
    assert_eq!(outcome_of(probe, ReadResult::Answered(Some(2))), ReadOutcome::Found);
    assert_eq!(outcome_of(recent, ReadResult::Answered(Some(0))), ReadOutcome::Missed);
    assert_eq!(outcome_of(recent, ReadResult::Answered(None)), ReadOutcome::Missed);
    assert_eq!(outcome_of(probe, ReadResult::Answered(None)), ReadOutcome::Absent);
    assert_eq!(outcome_of(probe, ReadResult::Failed), ReadOutcome::Failed);
}

#[test]
fn a_write_that_succeeds_is_taken_in() {
    let config = config();
    let mut state = connected(&config);
    state.consecutive_errors = 3;
    let mut metrics = Vec::new();
    let log = finish_write(&mut state, &config, key(8), true, 500, &mut metrics);
    assert_eq!(metrics, vec![Metric::Count(Counter::Writes), Metric::LastSuccess(500)]);
    assert!(!log.failed && !log.missed_recent && log.stats.is_none() && log.reset.is_none());
    assert_eq!(state.stats.writes_ok, 1);
    assert_eq!(state.stats.successes_since_log, 1);
    assert_eq!(state.last_success_timestamp, 500);
    assert_eq!(state.consecutive_errors, 0);
    assert_eq!(ids(&state.ring), vec![8]);
    assert_eq!(state.cassandra, Some("client"));
}

#[test]
fn a_write_that_fails_is_counted() {
    let config = config();
    let mut state = connected(&config);
    let mut metrics = Vec::new();
    let log = finish_write(&mut state, &config, key(8), false, 500, &mut metrics);
    assert_eq!(metrics, vec![Metric::Count(Counter::WriteErrors)]);
    assert!(log.failed && log.reset.is_none());
    assert_eq!(state.stats.writes_failed, 1);
    assert_eq!(state.last_success_timestamp, 0);
    assert_eq!(state.consecutive_errors, 1);
    assert!(ids(&state.ring).is_empty());
}

#[test]
fn ends_of_reads_change_counts_and_metrics() {
    let config = config();
    let recent = ReadSource::Recent;
    let probe = ReadSource::RandomMissProbe;
    let mut state = connected(&config);
    state.consecutive_errors = 2;
    let mut metrics = Vec::new();

    let missed = ReadResult::Answered(Some(0));
    let log = finish_read(&mut state, &config, recent, missed, 10, &mut metrics);
    assert!(log.missed_recent && !log.failed);
    assert_eq!(
        metrics,
        vec![
            Metric::Count(Counter::ReadsEmpty(recent)),
            Metric::Count(Counter::ReadErrors(recent)),
        ]
    );
    assert_eq!((state.stats.reads_empty, state.stats.reads_failed), (1, 1));
    assert_eq!((state.consecutive_errors, state.last_success_timestamp), (2, 0));

    metrics.clear();
    let log = finish_read(&mut state, &config, probe, missed, 11, &mut metrics);
    assert!(!log.missed_recent && !log.failed);
    assert_eq!(
        metrics,
        vec![
            Metric::Count(Counter::Reads(probe)),
            Metric::Count(Counter::ReadsEmpty(probe)),
            Metric::LastSuccess(11),
        ]
    );
    assert_eq!((state.stats.reads_empty, state.stats.reads_failed), (2, 1));
    assert_eq!((state.consecutive_errors, state.last_success_timestamp), (0, 11));

    metrics.clear();
    let found = ReadResult::Answered(Some(1));
    finish_read(&mut state, &config, recent, found, 12, &mut metrics);
    assert_eq!(
        metrics,
        vec![
            Metric::Count(Counter::Reads(recent)),
            Metric::Count(Counter::ReadsFound(recent)),
            Metric::LastSuccess(12),
        ]
    );
    assert_eq!(state.stats.reads_found, 1);

    metrics.clear();
    let log = finish_read(&mut state, &config, probe, ReadResult::Failed, 13, &mut metrics);
    assert!(log.failed);
    assert_eq!(metrics, vec![Metric::Count(Counter::ReadErrors(probe))]);
    assert_eq!((state.stats.reads_failed, state.consecutive_errors), (2, 1));
    assert_eq!(state.last_success_timestamp, 12);
}

#[test]
fn the_client_is_given_up_at_the_threshold() {
    let mut config = config();
    config.reconnect_after_consecutive_errors = 3;
    let mut state = connected(&config);
    assert!(write(&mut state, &config, false).reset.is_none());
    assert!(write(&mut state, &config, false).reset.is_none());
    write(&mut state, &config, true);
    assert!(write(&mut state, &config, false).reset.is_none());
    assert!(write(&mut state, &config, false).reset.is_none());
    assert!(state.cassandra.is_some());

    let mut metrics = Vec::new();
    let log = finish_write(&mut state, &config, key(1), false, 9, &mut metrics);
    assert_eq!(
        metrics,
        vec![Metric::Count(Counter::WriteErrors), Metric::CassandraReady(false)]
    );
    let reset = log.reset.unwrap();
    assert_eq!((reset.consecutive_errors, reset.threshold), (3, 3));
    let change = reset.change.unwrap();
    assert_eq!(change.previous, "cassandra_client_not_ready");
    assert_eq!(change.reason, "too_many_consecutive_errors");
    assert_eq!(change.severity, Severity::Warn);
    assert!(state.cassandra.is_none());
    assert_eq!(state.last_unready_reason, REASON_TOO_MANY_ERRORS);

    let again = write(&mut state, &config, false).reset.unwrap();
    assert_eq!(again.consecutive_errors, 4);
    assert!(again.change.is_none());
}

#[test]
fn a_threshold_of_zero_never_gives_up() {
    let mut config = config();
    config.reconnect_after_consecutive_errors = 0;
    let mut state = connected(&config);
    for _ in 0..100 {
        assert!(handle_operation_error(&mut state, &config, &mut Vec::new()).is_none());
    }
    assert!(state.cassandra.is_some());
    assert_eq!(state.consecutive_errors, 100);
}

#[test]
fn lines_are_logged_regularly() {
    let mut config = config();
    config.log_every_n_success = 3;
    let mut state = connected(&config);
    let lines: Vec<bool> =
        (0..7).map(|_| write(&mut state, &config, true).stats.is_some()).collect();
    assert_eq!(lines, vec![false, false, true, false, false, true, false]);

    let mut stats = connected(&config).stats;
    stats.reads_found = 4;
    stats.successes_since_log = 5;
    stats.last_log_successes = 2;
    let line = maybe_log_success(&mut stats, &config, 104);
    assert_eq!(
        line,
        Some(StatsLine {
            reads_ok: 4,
            reads_empty: 0,
            reads_failed: 0,
            writes_ok: 0,
            writes_failed: 0,
            successes: 4,
            seconds: 4,
        })
    );
    assert_eq!((stats.last_log_successes, stats.last_log_timestamp), (6, 104));
    stats.successes_since_log = 8;
    assert_eq!(maybe_log_success(&mut stats, &config, 50).unwrap().seconds, 1);

    config.log_every_n_success = 0;
    let before = stats;
    assert_eq!(maybe_log_success(&mut stats, &config, 60), None);
    assert_eq!(stats, before);
}

#[test]
fn counts_wrap_around() {
    let config = config();
    let mut state = connected(&config);
    state.stats.writes_ok = u64::MAX;
    write(&mut state, &config, true);
    assert_eq!(state.stats.writes_ok, 0);
}

#[test]
fn the_ring_takes_in_written_keys_only() {
    let mut config = config();
    config.rps_per_pod = 1;
    assert_eq!(ring_capacity(&config), 4096);
    let mut state = connected(&config);
    for n in 0..5000 {
        finish_write(&mut state, &config, key(n), n % 2 == 0, 7, &mut Vec::new());
    }
    assert_eq!(ids(&state.ring), (0..5000).step_by(2).map(|n| n as u128).collect::<Vec<_>>());
    for n in 0..5000 {
        finish_write(&mut state, &config, key(n), true, 7, &mut Vec::new());
    }
    assert_eq!(ids(&state.ring), (904..5000).map(|n| n as u128).collect::<Vec<_>>());
}

#[test]
fn metrics_follow_the_state() {
    let mut config = config();
    config.reconnect_after_consecutive_errors = 2;
    let recent = ReadSource::Recent;
    let probe = ReadSource::RandomMissProbe;
    let mut metrics = Vec::new();
    let mut state: RuntimeState<&'static str> = RuntimeState::new(&config, 1, &mut metrics);
    mark_cassandra_ready(&mut state, "client", &mut metrics);
    finish_write(&mut state, &config, key(1), true, 10, &mut metrics);
    finish_read(&mut state, &config, recent, ReadResult::Answered(None), 11, &mut metrics);
    finish_read(&mut state, &config, probe, ReadResult::Answered(Some(0)), 12, &mut metrics);
    finish_write(&mut state, &config, key(2), false, 13, &mut metrics);
    finish_read(&mut state, &config, recent, ReadResult::Failed, 14, &mut metrics);

    let count = |counters: &[Counter]| {
        metrics
            .iter()
            .filter(|change| counters.iter().any(|counter| **change == Metric::Count(*counter)))
            .count() as u64
    };
    assert_eq!(count(&[Counter::Reads(recent)]), 0);
    assert_eq!(count(&[Counter::Reads(probe)]), 1);
    assert_eq!(count(&[Counter::ReadsFound(recent), Counter::ReadsFound(probe)]), 0);
    assert_eq!(count(&[Counter::Writes]), 1);
    let read_errors = [Counter::ReadErrors(recent), Counter::ReadErrors(probe)];
    assert_eq!((count(&read_errors), state.stats.reads_failed), (2, 2));
    assert_eq!((count(&[Counter::WriteErrors]), state.stats.writes_failed), (1, 1));
    let last_success = metrics.iter().rev().find(|change| matches!(change, Metric::LastSuccess(_)));
    assert_eq!(last_success, Some(&Metric::LastSuccess(state.last_success_timestamp)));
    assert_eq!(state.last_success_timestamp, 12);
    let ready = metrics.iter().rev().find(|change| matches!(change, Metric::CassandraReady(_)));
    assert_eq!(ready, Some(&Metric::CassandraReady(state.cassandra.is_some())));
    assert_eq!(state.cassandra, None);
}
