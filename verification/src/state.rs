//! What the workers, the reconnect loop and the HTTP server share.

use vstd::prelude::*;

use crate::config::Config;
use crate::metrics::Metric;
use crate::text::same_text;
use crate::workload::{KeyRing, Ring};

verus! {

pub const REASON_CLIENT_NOT_READY: &'static str = "cassandra_client_not_ready";

pub const REASON_CONNECT_FAILED: &'static str = "connect_failed";

pub const REASON_SCHEMA_CHECK_FAILED: &'static str = "schema_check_failed";

pub const REASON_PREPARE_FAILED: &'static str = "prepare_failed";

pub const REASON_TOO_MANY_ERRORS: &'static str = "too_many_consecutive_errors";

pub const REASON_OPERATIONS_STALE: &'static str = "cassandra_operations_stale";

/// The counts of the operations so far.
#[derive(Clone, Copy, Debug, PartialEq, Eq, Structural)]
pub struct Stats {
    pub reads_found: u64,
    pub reads_empty: u64,
    pub reads_failed: u64,
    pub writes_ok: u64,
    pub writes_failed: u64,
    /// The successes, counted where they are to be logged.
    pub successes_since_log: u64,
    /// The successes at the last line of the log.
    pub last_log_successes: u64,
    /// The time of the last line of the log.
    pub last_log_timestamp: u64,
}

/// No operation so far.
pub open spec fn no_stats() -> Stats {
    Stats {
        reads_found: 0,
        reads_empty: 0,
        reads_failed: 0,
        writes_ok: 0,
        writes_failed: 0,
        successes_since_log: 0,
        last_log_successes: 0,
        last_log_timestamp: 0,
    }
}

impl Default for Stats {
    fn default() -> (stats: Self)
        ensures
            stats == no_stats(),
    {
        Stats {
            reads_found: 0,
            reads_empty: 0,
            reads_failed: 0,
            writes_ok: 0,
            writes_failed: 0,
            successes_since_log: 0,
            last_log_successes: 0,
            last_log_timestamp: 0,
        }
    }
}

/// The state of the program; `C` is the client that operations go through.
pub struct RuntimeState<C> {
    pub cassandra: Option<C>,
    pub ring: KeyRing,
    pub stats: Stats,
    /// The time of the last success, and zero before the first.
    pub last_success_timestamp: u64,
    /// The failed operations since the last success or the last new client.
    pub consecutive_errors: u64,
    pub last_unready_reason: String,
}

/// What a `RuntimeState` says.
pub struct Runtime<C> {
    pub cassandra: Option<C>,
    pub ring: Ring,
    pub stats: Stats,
    pub last_success: u64,
    pub consecutive_errors: u64,
    pub reason: Seq<char>,
}

impl<C> View for RuntimeState<C> {
    type V = Runtime<C>;

    open spec fn view(&self) -> Runtime<C> {
        Runtime {
            cassandra: self.cassandra,
            ring: self.ring@,
            stats: self.stats,
            last_success: self.last_success_timestamp,
            consecutive_errors: self.consecutive_errors,
            reason: self.last_unready_reason@,
        }
    }
}

/// The keys that are written in a minute, but no less than 4096 and no more than a
/// million.
pub open spec fn minute_of_keys(rps_per_pod: u64) -> nat {
    if rps_per_pod * 60 < 4096 {
        4096
    } else if rps_per_pod * 60 > 1_000_000 {
        1_000_000
    } else {
        (rps_per_pod * 60) as nat
    }
}

/// How many keys the ring has room for.
pub fn ring_capacity(config: &Config) -> (capacity: usize)
    requires
        config.rps_per_pod <= usize::MAX,
    ensures
        capacity == minute_of_keys(config.rps_per_pod),
{
    let rps: usize = config.rps_per_pod as usize;
    match rps.checked_mul(60) {
        Some(keys) => if keys < 4096 {
            4096
        } else if keys > 1_000_000 {
            1_000_000
        } else {
            keys
        },
        None => 1_000_000,
    }
}

/// The ring has room for the keys of a minute of nothing but writes, within its bounds,
/// and a faster program never has less room.
pub proof fn law_ring_has_room_for_a_minute(rps: u64, faster: u64)
    requires
        rps <= faster,
    ensures
        4096 <= minute_of_keys(rps) <= 1_000_000,
        4096 <= rps * 60 <= 1_000_000 ==> minute_of_keys(rps) == rps * 60,
        minute_of_keys(rps) <= minute_of_keys(faster),
        rps * 60 <= 1_000_000 ==> minute_of_keys(rps) >= rps * 60,
        minute_of_keys(rps) > 4096 ==> minute_of_keys(rps) <= rps * 60,
{
}

/// The program starts with no client and no success, with all counts at zero and an
/// empty ring, and says so in the gauges.
pub proof fn law_start<C>(
    config: Config,
    now: u64,
    metrics: &mut Vec<Metric>,
    state: RuntimeState<C>,
)
    requires
        call_ensures(RuntimeState::<C>::new, (&config, now, metrics), state),
    ensures
        state@ == initial_runtime::<C>(config, now),
        state.cassandra is None,
        state.ring@.keys.len() == 0,
        state.ring@.capacity == minute_of_keys(config.rps_per_pod),
        state.stats.reads_found == 0 && state.stats.reads_empty == 0 && state.stats.reads_failed
            == 0 && state.stats.writes_ok == 0 && state.stats.writes_failed == 0,
        state.stats.successes_since_log == 0 && state.stats.last_log_successes == 0,
        state.stats.last_log_timestamp == now,
        state.last_success_timestamp == 0,
        state.consecutive_errors == 0,
        state.last_unready_reason@ == "cassandra_client_not_ready"@,
        final(metrics)@ == old(metrics)@.push(Metric::LastSuccess(0)).push(
            Metric::CassandraReady(false),
        ),
{
}

/// The state at the start, at the time `now`: no client, no operation.
pub open spec fn initial_runtime<C>(config: Config, now: u64) -> Runtime<C> {
    Runtime {
        cassandra: None,
        ring: Ring { keys: Seq::empty(), capacity: minute_of_keys(config.rps_per_pod) },
        stats: Stats { last_log_timestamp: now, ..no_stats() },
        last_success: 0,
        consecutive_errors: 0,
        reason: REASON_CLIENT_NOT_READY@,
    }
}

impl<C> RuntimeState<C> {
    /// The state at the start, at the time `now`: no client, no operation.
    pub fn new(config: &Config, now: u64, metrics: &mut Vec<Metric>) -> (state: Self)
        requires
            config.rps_per_pod <= usize::MAX,
        ensures
            state@ == initial_runtime::<C>(*config, now),
            final(metrics)@ == old(metrics)@ + seq![
                Metric::LastSuccess(0),
                Metric::CassandraReady(false),
            ],
    {
        let mut stats: Stats = Stats::default();
        stats.last_log_timestamp = now;
        let state: RuntimeState<C> = RuntimeState {
            cassandra: None,
            ring: KeyRing::new(ring_capacity(config)),
            stats,
            last_success_timestamp: 0,
            consecutive_errors: 0,
            last_unready_reason: REASON_CLIENT_NOT_READY.to_owned(),
        };
        metrics.push(Metric::LastSuccess(0));
        metrics.push(Metric::CassandraReady(false));
        state
    }
}

/// Notes a success at the time `now`: it ends the row of failures.
pub fn mark_success(
    last_success_timestamp: &mut u64,
    consecutive_errors: &mut u64,
    now: u64,
    metrics: &mut Vec<Metric>,
)
    ensures
        *final(last_success_timestamp) == now,
        *final(consecutive_errors) == 0,
        final(metrics)@ == old(metrics)@.push(Metric::LastSuccess(now)),
{
    *consecutive_errors = 0;
    *last_success_timestamp = now;
    metrics.push(Metric::LastSuccess(now));
}

/// The state with `client` in use, and no failures so far.
pub open spec fn with_client<C>(state: Runtime<C>, client: C) -> Runtime<C> {
    Runtime { cassandra: Some(client), consecutive_errors: 0, ..state }
}

/// Takes `client` into use: it starts with no failures.
pub fn mark_cassandra_ready<C>(
    state: &mut RuntimeState<C>,
    client: C,
    metrics: &mut Vec<Metric>,
)
    ensures
        final(state)@ == with_client(old(state)@, client),
        final(metrics)@ == old(metrics)@.push(Metric::CassandraReady(true)),
{
    metrics.push(Metric::CassandraReady(true));
    state.consecutive_errors = 0;
    state.cassandra = Some(client);
}

/// Gives the client up, for `reason`.
pub fn mark_cassandra_unready<C>(
    state: &mut RuntimeState<C>,
    reason: &str,
    metrics: &mut Vec<Metric>,
) -> (change: Option<ReasonChange>)
    ensures
        final(state)@ == (Runtime { cassandra: None, reason: reason@, ..old(state)@ }),
        final(metrics)@ == old(metrics)@.push(Metric::CassandraReady(false)),
        change.deep_view() == reason_change(old(state)@.reason, reason@),
{
    metrics.push(Metric::CassandraReady(false));
    let change: Option<ReasonChange> = set_unready_reason(state, reason);
    state.cassandra = None;
    change
}

/// Makes `reason` the one that is given for not being ready.
pub fn set_unready_reason<C>(state: &mut RuntimeState<C>, reason: &str) -> (change: Option<
    ReasonChange,
>)
    ensures
        final(state)@ == (Runtime { reason: reason@, ..old(state)@ }),
        change.deep_view() == reason_change(old(state)@.reason, reason@),
{
    set_reason(&mut state.last_unready_reason, reason)
}

/// How loudly a line is logged.
#[derive(Clone, Copy, Debug, PartialEq, Eq, Structural)]
pub enum Severity {
    Info,
    Warn,
}

/// A change of the reason for not being ready, to be logged.
#[derive(Clone, Debug)]
pub struct ReasonChange {
    pub previous: String,
    pub reason: String,
    pub severity: Severity,
}

/// What a `ReasonChange` says.
pub struct Change {
    pub previous: Seq<char>,
    pub reason: Seq<char>,
    pub severity: Severity,
}

impl DeepView for ReasonChange {
    type V = Change;

    open spec fn deep_view(&self) -> Change {
        Change { previous: self.previous@, reason: self.reason@, severity: self.severity }
    }
}

/// What is logged when `previous` gives way to `reason`: nothing where they are the
/// same.
pub open spec fn reason_change(previous: Seq<char>, reason: Seq<char>) -> Option<Change> {
    if previous == reason {
        None
    } else {
        Some(
            Change {
                previous,
                reason,
                severity: if reason == REASON_OPERATIONS_STALE@ || reason
                    == REASON_CLIENT_NOT_READY@ {
                    Severity::Info
                } else {
                    Severity::Warn
                },
            },
        )
    }
}

/// A change is logged exactly where the reason is another one than before, with both;
/// as a warning unless the new reason is that there is no client yet or that the
/// operations are stale.
pub proof fn law_changes_are_logged(previous: Seq<char>, reason: Seq<char>)
    ensures
        ({
            let change = reason_change(previous, reason);
            &&& change is None <==> previous == reason
            &&& change matches Some(change) ==> {
                &&& change.previous == previous
                &&& change.reason == reason
                &&& change.severity == Severity::Info <==> reason
                    == "cassandra_operations_stale"@ || reason == "cassandra_client_not_ready"@
            }
        }),
{
}

/// A success sets the time and ends the row of failures; a client that is taken into
/// use starts without failures and leaves all else as it was; and one that is given up
/// leaves all but itself and the reason as it was.
pub proof fn law_marks<C>(
    time: &mut u64,
    errors: &mut u64,
    now: u64,
    metrics: &mut Vec<Metric>,
    state: &mut RuntimeState<C>,
    client: C,
    reason: &str,
    change: Option<ReasonChange>,
)
    ensures
        call_ensures(mark_success, (time, errors, now, metrics), ()) ==> *final(time) == now
            && *final(errors) == 0 && final(metrics)@ == old(metrics)@.push(
            Metric::LastSuccess(now),
        ),
        call_ensures(mark_cassandra_ready::<C>, (state, client, metrics), ()) ==> final(state)@ == (
        Runtime { cassandra: Some(client), consecutive_errors: 0, ..old(state)@ })
            && final(metrics)@ == old(metrics)@.push(Metric::CassandraReady(true)),
        call_ensures(mark_cassandra_unready::<C>, (state, reason, metrics), change) ==> {
            &&& final(state)@ == (Runtime { cassandra: None, reason: reason@, ..old(state)@ })
            &&& final(metrics)@ == old(metrics)@.push(Metric::CassandraReady(false))
        },
        call_ensures(set_unready_reason::<C>, (state, reason), change) ==> final(state)@ == (
        Runtime { reason: reason@, ..old(state)@ }),
{
}

/// The reason becomes the given one, and the change is returned exactly where it is
/// one.
pub proof fn law_reasons_are_replaced(
    current: &mut String,
    reason: &str,
    change: Option<ReasonChange>,
)
    requires
        call_ensures(set_reason, (current, reason), change),
    ensures
        final(current)@ == reason@,
        change is Some <==> old(current)@ != reason@,
        change matches Some(change) ==> change.previous@ == old(current)@ && change.reason@
            == reason@,
{
}

/// Makes `reason` the one in `current`.
pub fn set_reason(current: &mut String, reason: &str) -> (change: Option<ReasonChange>)
    ensures
        final(current)@ == reason@,
        change.deep_view() == reason_change(old(current)@, reason@),
{
    if same_text(current.as_str(), reason) {
        return None;
    }
    let previous: String = current.clone();
    *current = reason.to_owned();
    let severity: Severity = if same_text(reason, REASON_OPERATIONS_STALE) || same_text(
        reason,
        REASON_CLIENT_NOT_READY,
    ) {
        Severity::Info
    } else {
        Severity::Warn
    };
    Some(ReasonChange { previous, reason: reason.to_owned(), severity })
}

} // verus!
