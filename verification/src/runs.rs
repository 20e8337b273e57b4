//! What holds of any run of the program.

use vstd::prelude::*;

use crate::cassandra::{BuildPhase, ClientInitError, Reconnect, ReconnectAction};
use crate::config::Config;
use crate::http::{readyz, HttpResponse};
use crate::metrics::{Counter, Metric};
use crate::state::{
    ReasonChange, Runtime, RuntimeState, REASON_CLIENT_NOT_READY, REASON_CONNECT_FAILED, REASON_OPERATIONS_STALE,
    REASON_PREPARE_FAILED, REASON_SCHEMA_CHECK_FAILED, REASON_TOO_MANY_ERRORS,
};
use crate::workload::{
    finish_read, finish_write, Key, Log, OperationLog, ReadResult, ReadSource, WrittenKey,
};

verus! {

/// A step of the program.
pub enum Step<C> {
    /// The end of a write at the time `now`.
    Write { key: Key, succeeded: bool, now: u64 },
    /// The end of a read at the time `now`.
    Read { source: ReadSource, result: ReadResult, now: u64 },
    /// An attempt to get a client that gave one.
    Connected { client: C },
    /// An attempt to get a client that failed in a phase.
    ConnectFailed { phase: BuildPhase },
    /// The question, at the time `now`, whether operations succeed.
    Asked { now: u64 },
}

impl<C> Step<C> {
    /// Whether a statement failed.
    pub open spec fn failed(self) -> bool {
        match self {
            Step::Write { succeeded, .. } => !succeeded,
            Step::Read { result, .. } => result is Failed,
            _ => false,
        }
    }

    /// Whether a read was answered with at least one row.
    pub open spec fn found(self) -> bool {
        self matches Step::Read { result: ReadResult::Answered(Some(rows)), .. } && rows > 0
    }

    /// Whether a read was answered without a row.
    pub open spec fn empty(self) -> bool {
        self is Read && !self.failed() && !self.found()
    }

    /// Whether a key that had been written was not found.
    pub open spec fn missed(self) -> bool {
        self.empty() && self.reads_from(ReadSource::Recent)
    }

    /// Whether a read asked for a key from `source`.
    pub open spec fn reads_from(self, source: ReadSource) -> bool {
        self matches Step::Read { source: from, .. } && from == source
    }

    /// Whether an operation succeeded.
    pub open spec fn succeeded(self) -> bool {
        (self is Write || self is Read) && !self.failed() && !self.missed()
    }

    /// Whether the step is one of those that `counter` counts.
    pub open spec fn counts_for(self, counter: Counter) -> bool {
        match counter {
            Counter::Reads(source) => self.reads_from(source) && self.succeeded(),
            Counter::ReadsFound(source) => self.reads_from(source) && self.found(),
            Counter::ReadsEmpty(source) => self.reads_from(source) && self.empty(),
            Counter::ReadErrors(source) => self.reads_from(source) && (self.failed()
                || self.missed()),
            Counter::Writes => self is Write && !self.failed(),
            Counter::WriteErrors => self is Write && self.failed(),
            Counter::ConnectAttempts => self is Connected || self is ConnectFailed,
            Counter::Connects => self is Connected,
        }
    }

    /// The time of the end of an operation.
    pub open spec fn time(self) -> u64 {
        match self {
            Step::Write { now, .. } => now,
            Step::Read { now, .. } => now,
            _ => 0,
        }
    }
}

/// The state after a step: what `finish_write`, `finish_read`,
/// `Reconnect::connected`, `Reconnect::failed` and `readyz` leave.
pub open spec fn after_step<C>(state: Runtime<C>, config: Config, step: Step<C>) -> Runtime<C> {
    match step {
        Step::Write { key, succeeded, now } => crate::workload::after_write(
            state,
            config,
            key,
            succeeded,
            now,
        ),
        Step::Read { source, result, now } => crate::workload::after_read(
            state,
            config,
            source,
            result,
            now,
        ),
        Step::Connected { client } => crate::state::with_client(state, client),
        Step::ConnectFailed { phase } => crate::cassandra::after_failed_attempt(
            state,
            crate::cassandra::phase_fault(phase, config),
        ),
        Step::Asked { now } => crate::http::after_readyz(state, config.ready_max_age, now),
    }
}

/// The metrics that a step changes. An attempt to get a client is counted when it
/// starts.
pub open spec fn step_metrics<C>(state: Runtime<C>, config: Config, step: Step<C>) -> Seq<Metric> {
    match step {
        Step::Write { succeeded, now, .. } => crate::workload::write_metrics(
            state,
            config,
            succeeded,
            now,
        ),
        Step::Read { source, result, now } => crate::workload::read_metrics(
            state,
            config,
            source,
            result,
            now,
        ),
        Step::Connected { .. } => crate::cassandra::next_metrics(false)
            + crate::cassandra::connected_metrics(),
        Step::ConnectFailed { .. } => crate::cassandra::next_metrics(false)
            + crate::cassandra::failed_metrics(),
        Step::Asked { .. } => seq![],
    }
}

/// What is logged of the end of an operation; nothing of the other steps.
pub open spec fn step_log<C>(state: Runtime<C>, config: Config, step: Step<C>) -> Log {
    match step {
        Step::Write { succeeded, now, .. } => crate::workload::write_log(
            state,
            config,
            succeeded,
            now,
        ),
        Step::Read { source, result, now } => crate::workload::read_log(
            state,
            config,
            source,
            result,
            now,
        ),
        _ => Log { failed: false, missed_recent: false, stats: None, reset: None },
    }
}

/// Whether a line about the operations so far is logged at a step.
pub open spec fn step_logs<C>(state: Runtime<C>, config: Config, step: Step<C>) -> bool {
    step_log(state, config, step).stats is Some
}

/// The state after a run of steps.
pub open spec fn after_run<C>(state: Runtime<C>, config: Config, run: Seq<Step<C>>) -> Runtime<C>
    decreases run.len(),
{
    if run.len() == 0 {
        state
    } else {
        after_step(after_run(state, config, run.drop_last()), config, run.last())
    }
}

/// The metrics that a run changes, in order.
pub open spec fn run_metrics<C>(state: Runtime<C>, config: Config, run: Seq<Step<C>>) -> Seq<Metric>
    decreases run.len(),
{
    if run.len() == 0 {
        seq![]
    } else {
        let before = run.drop_last();
        run_metrics(state, config, before) + step_metrics(
            after_run(state, config, before),
            config,
            run.last(),
        )
    }
}

/// How many lines about the operations so far a run logs.
pub open spec fn run_lines<C>(state: Runtime<C>, config: Config, run: Seq<Step<C>>) -> nat
    decreases run.len(),
{
    if run.len() == 0 {
        0
    } else {
        let before = run.drop_last();
        run_lines(state, config, before) + (if step_logs(
            after_run(state, config, before),
            config,
            run.last(),
        ) {
            1nat
        } else {
            0nat
        })
    }
}

/// The keys that a run writes with success, in order.
pub open spec fn written_keys<C>(run: Seq<Step<C>>) -> Seq<Key>
    decreases run.len(),
{
    if run.len() == 0 {
        seq![]
    } else {
        match run.last() {
            Step::Write { key, succeeded: true, .. } => written_keys(run.drop_last()).push(key),
            _ => written_keys(run.drop_last()),
        }
    }
}

/// The time of the last success in a run, and `before` where there is none.
pub open spec fn last_success_in<C>(run: Seq<Step<C>>, before: u64) -> u64
    decreases run.len(),
{
    if run.len() == 0 {
        before
    } else if run.last().succeeded() {
        run.last().time()
    } else {
        last_success_in(run.drop_last(), before)
    }
}

/// The failures since the last success or the last new client in a run that starts
/// after `before` of them.
pub open spec fn failures_in_a_row<C>(run: Seq<Step<C>>, before: nat) -> nat
    decreases run.len(),
{
    if run.len() == 0 {
        before
    } else if run.last().succeeded() || run.last() is Connected {
        0
    } else if run.last().failed() {
        failures_in_a_row(run.drop_last(), before) + 1
    } else {
        failures_in_a_row(run.drop_last(), before)
    }
}

/// How many steps of a run succeed.
pub open spec fn successes_in<C>(run: Seq<Step<C>>) -> nat
    decreases run.len(),
{
    if run.len() == 0 {
        0
    } else {
        successes_in(run.drop_last()) + (if run.last().succeeded() {
            1nat
        } else {
            0nat
        })
    }
}

/// How many reads of a run fail or miss a key that had been written.
pub open spec fn bad_reads_in<C>(run: Seq<Step<C>>) -> nat
    decreases run.len(),
{
    if run.len() == 0 {
        0
    } else {
        bad_reads_in(run.drop_last()) + (if run.last() is Read && !run.last().succeeded() {
            1nat
        } else {
            0nat
        })
    }
}

/// How many writes of a run fail.
pub open spec fn bad_writes_in<C>(run: Seq<Step<C>>) -> nat
    decreases run.len(),
{
    if run.len() == 0 {
        0
    } else {
        bad_writes_in(run.drop_last()) + (if run.last() is Write && !run.last().succeeded() {
            1nat
        } else {
            0nat
        })
    }
}

/// How many reads of a run succeed.
pub open spec fn good_reads_in<C>(run: Seq<Step<C>>) -> nat
    decreases run.len(),
{
    if run.len() == 0 {
        0
    } else {
        good_reads_in(run.drop_last()) + (if run.last() is Read && run.last().succeeded() {
            1nat
        } else {
            0nat
        })
    }
}

/// How many writes of a run succeed.
pub open spec fn good_writes_in<C>(run: Seq<Step<C>>) -> nat
    decreases run.len(),
{
    if run.len() == 0 {
        0
    } else {
        good_writes_in(run.drop_last()) + (if run.last() is Write && run.last().succeeded() {
            1nat
        } else {
            0nat
        })
    }
}

/// How often the counter of reads that succeeded goes up.
pub open spec fn reads_counted(metrics: Seq<Metric>) -> nat
    decreases metrics.len(),
{
    if metrics.len() == 0 {
        0
    } else {
        reads_counted(metrics.drop_last()) + (match metrics.last() {
            Metric::Count(Counter::Reads(_)) => 1nat,
            _ => 0nat,
        })
    }
}

/// How often the counter of writes that succeeded goes up.
pub open spec fn writes_counted(metrics: Seq<Metric>) -> nat
    decreases metrics.len(),
{
    if metrics.len() == 0 {
        0
    } else {
        writes_counted(metrics.drop_last()) + (match metrics.last() {
            Metric::Count(Counter::Writes) => 1nat,
            _ => 0nat,
        })
    }
}

/// How often the counter of read errors goes up.
pub open spec fn read_errors_counted(metrics: Seq<Metric>) -> nat
    decreases metrics.len(),
{
    if metrics.len() == 0 {
        0
    } else {
        read_errors_counted(metrics.drop_last()) + (match metrics.last() {
            Metric::Count(Counter::ReadErrors(_)) => 1nat,
            _ => 0nat,
        })
    }
}

/// How often the counter of write errors goes up.
pub open spec fn write_errors_counted(metrics: Seq<Metric>) -> nat
    decreases metrics.len(),
{
    if metrics.len() == 0 {
        0
    } else {
        write_errors_counted(metrics.drop_last()) + (match metrics.last() {
            Metric::Count(Counter::WriteErrors) => 1nat,
            _ => 0nat,
        })
    }
}

/// The ring takes in the keys that were written with success, and no other.
pub proof fn law_ring_takes_in_written_keys<C>(state: Runtime<C>, config: Config, run: Seq<Step<C>>)
    ensures
        after_run(state, config, run).ring == state.ring.push_all(written_keys(run)),
    decreases run.len(),
{
    if run.len() > 0 {
        law_ring_takes_in_written_keys(state, config, run.drop_last());
        match run.last() {
            Step::Write { key, succeeded: true, .. } => {
                let before = written_keys(run.drop_last());
                assert(before.push(key).drop_last() == before);
            },
            _ => {},
        }
    }
}

/// From the start on, the ring holds the keys that were written last, as many as it
/// has room for: a read from it asks for a key that was written with success.
pub proof fn law_recent_keys_were_written<C>(config: Config, start: u64, run: Seq<Step<C>>)
    ensures
        ({
            let state = after_run(
                crate::state::initial_runtime::<C>(config, start),
                config,
                run,
            );
            &&& state.ring.keys == crate::workload::latest(
                written_keys(run),
                state.ring.capacity,
            )
            &&& forall|key: Key| #[trigger]
                state.ring.keys.contains(key) ==> written_keys(run).contains(key)
        }),
{
    let state = crate::state::initial_runtime::<C>(config, start);
    let written = written_keys(run);
    law_ring_takes_in_written_keys(state, config, run);
    crate::workload::law_ring_holds_the_latest(state.ring, written);
    assert(state.ring.keys + written == written);
    let held = after_run(state, config, run).ring;
    assert forall|key: Key| #[trigger] held.keys.contains(key) implies written.contains(key) by {
        let i = held.keys.index_of(key);
        if written.len() > held.capacity {
            assert(written[i + written.len() - held.capacity] == key);
        } else {
            assert(written[i] == key);
        }
    }
}

/// The time of the last success is kept through whatever fails after it.
pub proof fn law_last_success_is_kept<C>(state: Runtime<C>, config: Config, run: Seq<Step<C>>)
    ensures
        after_run(state, config, run).last_success == last_success_in(run, state.last_success),
    decreases run.len(),
{
    if run.len() > 0 {
        law_last_success_is_kept(state, config, run.drop_last());
    }
}

/// The count of failures in a row is the number of failures since the last success or
/// the last new client.
pub proof fn law_failures_in_a_row<C>(state: Runtime<C>, config: Config, run: Seq<Step<C>>)
    requires
        state.consecutive_errors + run.len() <= u64::MAX,
    ensures
        after_run(state, config, run).consecutive_errors == failures_in_a_row(
            run,
            state.consecutive_errors as nat,
        ),
        failures_in_a_row(run, state.consecutive_errors as nat) <= state.consecutive_errors
            + run.len(),
    decreases run.len(),
{
    if run.len() > 0 {
        law_failures_in_a_row(state, config, run.drop_last());
    }
}

/// Whether somewhere in a run a failure is the `threshold`th in a row, or beyond.
pub open spec fn reaches<C>(run: Seq<Step<C>>, before: nat, threshold: nat) -> bool {
    exists|n: int|
        1 <= n <= run.len() && #[trigger] run.take(n).last().failed() && failures_in_a_row(
            run.take(n),
            before,
        ) >= threshold
}

/// As long as no new one comes, the client is given up at the first failure that is
/// the threshold's number in a row, and at no other; a threshold of zero never gives
/// it up.
pub proof fn law_client_is_given_up_at_the_threshold<C>(
    state: Runtime<C>,
    config: Config,
    run: Seq<Step<C>>,
)
    requires
        state.consecutive_errors + run.len() <= u64::MAX,
        forall|i: int| 0 <= i < run.len() ==> !((#[trigger] run[i]) is Connected),
    ensures
        after_run(state, config, run).cassandra == (if config.reconnect_after_consecutive_errors
            > 0 && reaches(
            run,
            state.consecutive_errors as nat,
            config.reconnect_after_consecutive_errors as nat,
        ) {
            None
        } else {
            state.cassandra
        }),
    decreases run.len(),
{
    let before = state.consecutive_errors as nat;
    let threshold = config.reconnect_after_consecutive_errors as nat;
    if run.len() > 0 {
        let front = run.drop_last();
        assert forall|i: int| 0 <= i < front.len() implies !((#[trigger] front[i]) is Connected) by {
            assert(front[i] == run[i]);
        }
        assert(!(run[run.len() - 1] is Connected));
        law_client_is_given_up_at_the_threshold(state, config, front);
        law_failures_in_a_row(state, config, front);
        assert(run.take(run.len() as int) == run);
        if reaches(front, before, threshold) {
            let n = choose|n: int|
                1 <= n <= front.len() && #[trigger] front.take(n).last().failed()
                    && failures_in_a_row(front.take(n), before) >= threshold;
            assert(run.take(n) == front.take(n));
            assert(run.take(n).last().failed());
        }
        if run.last().failed() {
            assert(run.take(run.len() as int).last().failed());
        }
        if reaches(run, before, threshold) {
            let n = choose|n: int|
                1 <= n <= run.len() && #[trigger] run.take(n).last().failed()
                    && failures_in_a_row(run.take(n), before) >= threshold;
            if n < run.len() {
                assert(run.take(n) == front.take(n));
                assert(front.take(n).last().failed());
            } else {
                assert(run.take(n) == run);
            }
        }
    }
}

/// The counts of failed reads and writes go up by one with each read and write that
/// fails or misses a key that had been written, and stay as they are through a run
/// without one. So do the counters that are exposed.
pub proof fn law_error_counts<C>(state: Runtime<C>, config: Config, run: Seq<Step<C>>)
    requires
        state.stats.reads_failed + run.len() <= u64::MAX,
        state.stats.writes_failed + run.len() <= u64::MAX,
    ensures
        after_run(state, config, run).stats.reads_failed == state.stats.reads_failed
            + bad_reads_in(run),
        after_run(state, config, run).stats.writes_failed == state.stats.writes_failed
            + bad_writes_in(run),
        read_errors_counted(run_metrics(state, config, run)) == bad_reads_in(run),
        write_errors_counted(run_metrics(state, config, run)) == bad_writes_in(run),
        bad_reads_in(run) + bad_writes_in(run) <= run.len(),
        bad_reads_in(run) + bad_writes_in(run) == 0 <==> forall|i: int|
            0 <= i < run.len() ==> !(#[trigger] run[i]).failed() && !run[i].missed(),
    decreases run.len(),
{
    if run.len() > 0 {
        let front = run.drop_last();
        law_error_counts(state, config, front);
        let before = after_run(state, config, front);
        let metrics = run_metrics(state, config, front);
        let added = step_metrics(before, config, run.last());
        lemma_errors_counted_add(metrics, added);
        lemma_step_metrics(before, config, run.last());
        assert(run == front.push(run.last()));
        assert(forall|i: int| 0 <= i < front.len() ==> run[i] == front[i]);
        if forall|i: int|
            0 <= i < run.len() ==> !(#[trigger] run[i]).failed() && !run[i].missed() {
            assert forall|i: int| 0 <= i < front.len() implies !(#[trigger] front[i]).failed()
                && !front[i].missed() by {
                assert(!run[i].failed());
            }
            assert(!run[run.len() - 1].failed());
        }
    }
}

proof fn lemma_errors_counted_add(first: Seq<Metric>, second: Seq<Metric>)
    ensures
        read_errors_counted(first + second) == read_errors_counted(first) + read_errors_counted(
            second,
        ),
        write_errors_counted(first + second) == write_errors_counted(first)
            + write_errors_counted(second),
    decreases second.len(),
{
    if second.len() == 0 {
        assert(first + second == first);
    } else {
        lemma_errors_counted_add(first, second.drop_last());
        assert((first + second).drop_last() == first + second.drop_last());
    }
}

proof fn lemma_step_metrics<C>(state: Runtime<C>, config: Config, step: Step<C>)
    ensures
        read_errors_counted(step_metrics(state, config, step)) == (if step is Read
            && !step.succeeded() {
            1nat
        } else {
            0nat
        }),
        write_errors_counted(step_metrics(state, config, step)) == (if step is Write
            && !step.succeeded() {
            1nat
        } else {
            0nat
        }),
{
    reveal_with_fuel(read_errors_counted, 4);
    reveal_with_fuel(write_errors_counted, 4);
    let metrics = step_metrics(state, config, step);
    assert(metrics.len() >= 1 ==> metrics.drop_last().len() == metrics.len() - 1);
    assert(metrics.len() >= 2 ==> metrics.drop_last().drop_last().len() == metrics.len() - 2);
}

/// The counters of reads and writes that succeeded go up by one with each read and
/// write that does, and with nothing else.
pub proof fn law_success_counts<C>(state: Runtime<C>, config: Config, run: Seq<Step<C>>)
    ensures
        reads_counted(run_metrics(state, config, run)) == good_reads_in(run),
        writes_counted(run_metrics(state, config, run)) == good_writes_in(run),
        good_reads_in(run) + good_writes_in(run) == successes_in(run),
    decreases run.len(),
{
    if run.len() > 0 {
        let front = run.drop_last();
        law_success_counts(state, config, front);
        let before = after_run(state, config, front);
        let added = step_metrics(before, config, run.last());
        lemma_successes_counted_add(run_metrics(state, config, front), added);
        lemma_step_successes(before, config, run.last());
    }
}

proof fn lemma_successes_counted_add(first: Seq<Metric>, second: Seq<Metric>)
    ensures
        reads_counted(first + second) == reads_counted(first) + reads_counted(second),
        writes_counted(first + second) == writes_counted(first) + writes_counted(second),
    decreases second.len(),
{
    if second.len() == 0 {
        assert(first + second == first);
    } else {
        lemma_successes_counted_add(first, second.drop_last());
        assert((first + second).drop_last() == first + second.drop_last());
    }
}

proof fn lemma_step_successes<C>(state: Runtime<C>, config: Config, step: Step<C>)
    ensures
        reads_counted(step_metrics(state, config, step)) == (if step is Read
            && step.succeeded() {
            1nat
        } else {
            0nat
        }),
        writes_counted(step_metrics(state, config, step)) == (if step is Write
            && step.succeeded() {
            1nat
        } else {
            0nat
        }),
{
    reveal_with_fuel(reads_counted, 4);
    reveal_with_fuel(writes_counted, 4);
    let metrics = step_metrics(state, config, step);
    assert(metrics.len() >= 1 ==> metrics.drop_last().len() == metrics.len() - 1);
    assert(metrics.len() >= 2 ==> metrics.drop_last().drop_last().len() == metrics.len() - 2);
}

/// How many steps of a run `counter` counts.
pub open spec fn steps_for<C>(run: Seq<Step<C>>, counter: Counter) -> nat
    decreases run.len(),
{
    if run.len() == 0 {
        0
    } else {
        steps_for(run.drop_last(), counter) + (if run.last().counts_for(counter) {
            1nat
        } else {
            0nat
        })
    }
}

/// How often `counter` goes up, under its own label.
pub open spec fn times_counted(metrics: Seq<Metric>, counter: Counter) -> nat
    decreases metrics.len(),
{
    if metrics.len() == 0 {
        0
    } else {
        times_counted(metrics.drop_last(), counter) + (if metrics.last() == Metric::Count(
            counter,
        ) {
            1nat
        } else {
            0nat
        })
    }
}

/// Each counter, and each label of it for itself, goes up by one with each step that
/// it counts, and with no other.
pub proof fn law_counters<C>(
    state: Runtime<C>,
    config: Config,
    run: Seq<Step<C>>,
    counter: Counter,
)
    ensures
        times_counted(run_metrics(state, config, run), counter) == steps_for(run, counter),
    decreases run.len(),
{
    if run.len() > 0 {
        let front = run.drop_last();
        law_counters(state, config, front, counter);
        let before = after_run(state, config, front);
        let added = step_metrics(before, config, run.last());
        lemma_times_counted_add(run_metrics(state, config, front), added, counter);
        lemma_step_counts(before, config, run.last(), counter);
    }
}

proof fn lemma_times_counted_add(first: Seq<Metric>, second: Seq<Metric>, counter: Counter)
    ensures
        times_counted(first + second, counter) == times_counted(first, counter) + times_counted(
            second,
            counter,
        ),
    decreases second.len(),
{
    if second.len() == 0 {
        assert(first + second == first);
    } else {
        lemma_times_counted_add(first, second.drop_last(), counter);
        assert((first + second).drop_last() == first + second.drop_last());
    }
}

proof fn lemma_step_counts<C>(state: Runtime<C>, config: Config, step: Step<C>, counter: Counter)
    ensures
        times_counted(step_metrics(state, config, step), counter) == (if step.counts_for(
            counter,
        ) {
            1nat
        } else {
            0nat
        }),
{
    reveal_with_fuel(times_counted, 4);
    let metrics = step_metrics(state, config, step);
    assert(metrics.len() >= 1 ==> metrics.drop_last().len() == metrics.len() - 1);
    assert(metrics.len() >= 2 ==> metrics.drop_last().drop_last().len() == metrics.len() - 2);
}

/// How many reads of a run are answered with a row.
pub open spec fn found_in<C>(run: Seq<Step<C>>) -> nat
    decreases run.len(),
{
    if run.len() == 0 {
        0
    } else {
        found_in(run.drop_last()) + (if run.last().found() {
            1nat
        } else {
            0nat
        })
    }
}

/// How many reads of a run are answered without a row.
pub open spec fn empty_in<C>(run: Seq<Step<C>>) -> nat
    decreases run.len(),
{
    if run.len() == 0 {
        0
    } else {
        empty_in(run.drop_last()) + (if run.last().empty() {
            1nat
        } else {
            0nat
        })
    }
}

/// The counts that are kept are the numbers of the steps of the run: the reads that
/// found a row, found none, and failed or missed a key that had been written, and the
/// writes that succeeded and failed.
pub proof fn law_stats_count_the_run<C>(config: Config, start: u64, run: Seq<Step<C>>)
    requires
        run.len() < u64::MAX,
    ensures
        ({
            let stats = after_run(
                crate::state::initial_runtime::<C>(config, start),
                config,
                run,
            ).stats;
            &&& stats.reads_found == found_in(run)
            &&& stats.reads_empty == empty_in(run)
            &&& stats.reads_failed == bad_reads_in(run)
            &&& stats.writes_ok == good_writes_in(run)
            &&& stats.writes_failed == bad_writes_in(run)
            &&& config.log_every_n_success > 0 ==> stats.successes_since_log == successes_in(run)
        }),
        found_in(run) <= run.len(),
        empty_in(run) <= run.len(),
        bad_reads_in(run) <= run.len(),
        good_writes_in(run) <= run.len(),
        bad_writes_in(run) <= run.len(),
        successes_in(run) <= run.len(),
    decreases run.len(),
{
    if run.len() > 0 {
        law_stats_count_the_run(config, start, run.drop_last());
    }
}

/// The time of the last line about the operations in a run, where one is logged at
/// every `every`th success; `start` where there was none yet.
pub open spec fn last_line_in<C>(run: Seq<Step<C>>, every: int, start: u64) -> u64
    decreases run.len(),
{
    if run.len() == 0 {
        start
    } else if run.last().succeeded() && successes_in(run) as int % every == 0 {
        run.last().time()
    } else {
        last_line_in(run.drop_last(), every, start)
    }
}

/// A line is logged at a step exactly where the step is a success, and the number of
/// the successes so far is a multiple of what the settings say. It shows the numbers
/// of the steps so far, the step itself among them: the reads that found a row, found
/// none, and failed or missed, and the writes that succeeded and failed. Since the
/// last line there were as many successes as the settings say, in the seconds that
/// passed, or one where none did.
pub proof fn law_lines_show_the_run<C>(config: Config, start: u64, run: Seq<Step<C>>)
    requires
        0 < run.len() < u64::MAX,
    ensures
        ({
            let before = after_run(
                crate::state::initial_runtime::<C>(config, start),
                config,
                run.drop_last(),
            );
            let every = config.log_every_n_success as int;
            let line = step_log(before, config, run.last()).stats;
            let last = last_line_in(run.drop_last(), every, start);
            &&& line is Some <==> every > 0 && run.last().succeeded() && successes_in(run) as int
                % every == 0
            &&& line matches Some(line) ==> {
                &&& line.reads_ok == found_in(run)
                &&& line.reads_empty == empty_in(run)
                &&& line.reads_failed == bad_reads_in(run)
                &&& line.writes_ok == good_writes_in(run)
                &&& line.writes_failed == bad_writes_in(run)
                &&& line.successes == every
                &&& line.seconds >= 1
                &&& if run.last().time() > last {
                    last + line.seconds == run.last().time()
                } else {
                    line.seconds == 1
                }
            }
        }),
{
    law_stats_count_the_run(config, start, run);
    law_stats_count_the_run(config, start, run.drop_last());
    let every = config.log_every_n_success as int;
    if every > 0 && run.last().succeeded() {
        lemma_last_line(config, start, run.drop_last());
        let n = successes_in(run) as int;
        vstd::arithmetic::div_mod::lemma_fundamental_div_mod(n, every);
        lemma_next_quotient(n - 1, every);
        let q = (n - 1) / every;
        assert(every * (q + 1) == every * q + every) by (nonlinear_arith);
    }
}

/// What is kept of the last line: its time, and the successes at it.
proof fn lemma_last_line<C>(config: Config, start: u64, run: Seq<Step<C>>)
    requires
        run.len() < u64::MAX,
        config.log_every_n_success > 0,
    ensures
        ({
            let stats = after_run(
                crate::state::initial_runtime::<C>(config, start),
                config,
                run,
            ).stats;
            let every = config.log_every_n_success as int;
            &&& stats.last_log_timestamp == last_line_in(run, every, start)
            &&& stats.last_log_successes == every * (successes_in(run) as int / every)
        }),
    decreases run.len(),
{
    let every = config.log_every_n_success as int;
    if run.len() == 0 {
        assert(every * (0int / every) == 0) by (nonlinear_arith)
            requires
                every > 0,
        ;
    } else {
        lemma_last_line(config, start, run.drop_last());
        law_stats_count_the_run(config, start, run);
        law_stats_count_the_run(config, start, run.drop_last());
        let n = successes_in(run.drop_last()) as int;
        lemma_next_quotient(n, every);
        vstd::arithmetic::div_mod::lemma_fundamental_div_mod(n + 1, every);
    }
}

/// A line is logged at every so many successes as the settings say, counted from the
/// start, and never where they say zero.
pub proof fn law_lines_are_logged_regularly<C>(config: Config, start: u64, run: Seq<Step<C>>)
    requires
        run.len() < u64::MAX,
    ensures
        ({
            let state = crate::state::initial_runtime::<C>(config, start);
            let every = config.log_every_n_success as int;
            run_lines(state, config, run) == (if every > 0 {
                successes_in(run) as int / every
            } else {
                0
            })
        }),
{
    lemma_lines(crate::state::initial_runtime::<C>(config, start), config, run);
}

proof fn lemma_lines<C>(state: Runtime<C>, config: Config, run: Seq<Step<C>>)
    requires
        run.len() < u64::MAX,
        state.stats.successes_since_log == 0,
    ensures
        config.log_every_n_success > 0 ==> after_run(state, config, run).stats.successes_since_log
            == successes_in(run),
        run_lines(state, config, run) == (if config.log_every_n_success > 0 {
            successes_in(run) as int / config.log_every_n_success as int
        } else {
            0
        }),
        successes_in(run) <= run.len(),
    decreases run.len(),
{
    let every = config.log_every_n_success as int;
    if run.len() > 0 {
        lemma_lines(state, config, run.drop_last());
        let n = successes_in(run.drop_last()) as int;
        if every > 0 {
            lemma_next_quotient(n, every);
        }
    } else if every > 0 {
        assert(0int / every == 0) by (nonlinear_arith)
            requires
                every > 0,
        ;
    }
}

proof fn lemma_next_quotient(n: int, d: int)
    requires
        n >= 0,
        d > 0,
    ensures
        (n + 1) / d == n / d + (if (n + 1) % d == 0 {
            1int
        } else {
            0int
        }),
{
    vstd::arithmetic::div_mod::lemma_fundamental_div_mod(n, d);
    vstd::arithmetic::div_mod::lemma_fundamental_div_mod(n + 1, d);
    let q = n / d;
    let r = n % d;
    assert(d * q == q * d) by (nonlinear_arith);
    vstd::arithmetic::div_mod::lemma_mod_bound(n, d);
    if r + 1 < d {
        vstd::arithmetic::div_mod::lemma_fundamental_div_mod_converse(n + 1, d, q, r + 1);
    } else {
        assert((q + 1) * d == q * d + d) by (nonlinear_arith);
        vstd::arithmetic::div_mod::lemma_fundamental_div_mod_converse(n + 1, d, q + 1, 0);
    }
}

/// Whether the client is given up at a step: at a failure with which the failures in a
/// row reach the threshold, unless that is zero.
pub open spec fn gives_up_at<C>(state: Runtime<C>, config: Config, step: Step<C>) -> bool {
    step.failed() && 0 < config.reconnect_after_consecutive_errors <= state.consecutive_errors + 1
}

/// The client after a step is the new one, or none where it was given up, or else the
/// one before.
pub proof fn law_client_after_a_step<C>(state: Runtime<C>, config: Config, step: Step<C>)
    ensures
        after_step(state, config, step).cassandra == (match step {
            Step::Connected { client } => Some(client),
            _ => if gives_up_at(state, config, step) {
                None
            } else {
                state.cassandra
            },
        }),
{
}

/// The reason for not being ready changes only where an attempt fails, to the reason
/// of the phase; where the client is given up; and where the program is asked, has a
/// client and its last success is too old.
pub proof fn law_reason_after_a_step<C>(state: Runtime<C>, config: Config, step: Step<C>)
    ensures
        after_step(state, config, step).reason == (match step {
            Step::ConnectFailed { phase: BuildPhase::Connect } => "connect_failed"@,
            Step::ConnectFailed { phase: BuildPhase::CreateKeyspace } => "schema_check_failed"@,
            Step::ConnectFailed { phase: BuildPhase::CreateTable } => "schema_check_failed"@,
            Step::ConnectFailed { phase: BuildPhase::CheckSchema } => "schema_check_failed"@,
            Step::ConnectFailed { .. } => "prepare_failed"@,
            Step::Asked { now } => if state.cassandra is Some && (state.last_success == 0 || now
                > state.last_success + config.ready_max_age) {
                "cassandra_operations_stale"@
            } else {
                state.reason
            },
            _ => if gives_up_at(state, config, step) {
                "too_many_consecutive_errors"@
            } else {
                state.reason
            },
        }),
{
}

/// What is logged of an operation says whether it failed, whether it missed a key that
/// had been written, and where the client is given up the number of failures in a row
/// and the threshold.
pub proof fn law_log_of_a_step<C>(state: Runtime<C>, config: Config, step: Step<C>)
    requires
        state.consecutive_errors < u64::MAX,
    ensures
        ({
            let log = step_log(state, config, step);
            &&& log.failed <==> step.failed()
            &&& log.missed_recent <==> step.missed()
            &&& log.reset is Some <==> gives_up_at(state, config, step)
            &&& log.reset matches Some(reset) ==> {
                &&& reset.consecutive_errors == state.consecutive_errors + 1
                &&& reset.threshold == config.reconnect_after_consecutive_errors
                &&& reset.change is Some <==> state.reason != "too_many_consecutive_errors"@
                &&& reset.change matches Some(change) ==> change.previous == state.reason
                    && change.reason == "too_many_consecutive_errors"@
            }
        }),
{
}

/// A call of `finish_write` is the step of that write.
pub proof fn law_finish_write_is_a_step<C>(
    state: &mut RuntimeState<C>,
    config: Config,
    key: WrittenKey,
    succeeded: bool,
    now: u64,
    metrics: &mut Vec<Metric>,
    log: OperationLog,
)
    requires
        call_ensures(
            finish_write::<C>,
            (state, &config, key, succeeded, now, metrics),
            log,
        ),
    ensures
        ({
            let step = Step::Write { key: key@, succeeded, now };
            &&& final(state)@ == after_step(old(state)@, config, step)
            &&& final(metrics)@ == old(metrics)@ + step_metrics(old(state)@, config, step)
            &&& log@ == step_log(old(state)@, config, step)
        }),
{
}

/// A call of `finish_read` is the step of that read.
pub proof fn law_finish_read_is_a_step<C>(
    state: &mut RuntimeState<C>,
    config: Config,
    source: ReadSource,
    result: ReadResult,
    now: u64,
    metrics: &mut Vec<Metric>,
    log: OperationLog,
)
    requires
        call_ensures(
            finish_read::<C>,
            (state, &config, source, result, now, metrics),
            log,
        ),
    ensures
        ({
            let step = Step::Read { source, result, now };
            &&& final(state)@ == after_step(old(state)@, config, step)
            &&& final(metrics)@ == old(metrics)@ + step_metrics(old(state)@, config, step)
            &&& log@ == step_log(old(state)@, config, step)
        }),
{
}

/// A call of `Reconnect::next` that says to connect, and the call of
/// `Reconnect::connected` after it, are the step of that attempt.
pub proof fn law_connected_is_a_step<C>(
    reconnect: &mut Reconnect,
    state: &mut RuntimeState<C>,
    config: Config,
    client: C,
    first: &mut Vec<Metric>,
    second: &mut Vec<Metric>,
    action: ReconnectAction,
)
    requires
        call_ensures(Reconnect::next::<C>, (&*reconnect, &*state, first), action),
        action == ReconnectAction::Connect,
        *second == *final(first),
        call_ensures(Reconnect::connected::<C>, (reconnect, state, client, second), ()),
    ensures
        ({
            let step = Step::Connected { client };
            &&& old(state)@.cassandra is None
            &&& final(state)@ == after_step(old(state)@, config, step)
            &&& final(second)@ == old(first)@ + step_metrics(old(state)@, config, step)
            &&& final(reconnect)@ == 1
        }),
{
}

/// A call of `Reconnect::next` that says to connect, and the call of
/// `Reconnect::failed` after it with the error of a phase, are the step of that
/// attempt.
pub proof fn law_failed_is_a_step<C>(
    reconnect: &mut Reconnect,
    state: &mut RuntimeState<C>,
    config: Config,
    phase: BuildPhase,
    error: ClientInitError,
    first: &mut Vec<Metric>,
    second: &mut Vec<Metric>,
    action: ReconnectAction,
    wait: (u64, Option<ReasonChange>),
)
    requires
        call_ensures(Reconnect::next::<C>, (&*reconnect, &*state, first), action),
        action == ReconnectAction::Connect,
        *second == *final(first),
        error@ == crate::cassandra::phase_fault(phase, config),
        call_ensures(Reconnect::failed::<C>, (reconnect, state, &error, second), wait),
    ensures
        ({
            let step = Step::ConnectFailed { phase };
            &&& old(state)@.cassandra is None
            &&& final(state)@ == after_step(old(state)@, config, step)
            &&& final(second)@ == old(first)@ + step_metrics(old(state)@, config, step)
            &&& wait.0 == old(reconnect)@
            &&& final(reconnect)@ == crate::cassandra::next_backoff(old(reconnect)@)
        }),
        wait.1 is Some <==> final(state)@.reason != old(state)@.reason,
        wait.1 matches Some(change) ==> change.previous@ == old(state)@.reason && change.reason@
            == final(state)@.reason,
{
}

/// A call of `readyz` is the step of that question.
pub proof fn law_readyz_is_a_step<C>(
    state: &mut RuntimeState<C>,
    config: Config,
    now: u64,
    reply: (HttpResponse, Option<ReasonChange>),
)
    requires
        call_ensures(readyz::<C>, (state, config.ready_max_age, now), reply),
    ensures
        final(state)@ == after_step(old(state)@, config, Step::Asked { now }),
        reply.0@ == crate::http::ready_reply(old(state)@, config.ready_max_age, now),
        reply.1 is Some <==> final(state)@.reason != old(state)@.reason,
        reply.1 matches Some(change) ==> change.previous@ == old(state)@.reason
            && change.reason@ == final(state)@.reason,
        step_metrics(old(state)@, config, Step::Asked { now }).len() == 0,
{
}

/// The reasons that the program gives for not being ready.
pub open spec fn is_known_reason(reason: Seq<char>) -> bool {
    ||| reason == REASON_CLIENT_NOT_READY@
    ||| reason == REASON_CONNECT_FAILED@
    ||| reason == REASON_SCHEMA_CHECK_FAILED@
    ||| reason == REASON_PREPARE_FAILED@
    ||| reason == REASON_TOO_MANY_ERRORS@
    ||| reason == REASON_OPERATIONS_STALE@
}

/// From the start on, the reason for not being ready is one of the known ones.
pub proof fn law_reason_is_known<C>(config: Config, start: u64, run: Seq<Step<C>>)
    ensures
        is_known_reason(
            after_run(crate::state::initial_runtime::<C>(config, start), config, run).reason,
        ),
    decreases run.len(),
{
    if run.len() > 0 {
        law_reason_is_known(config, start, run.drop_last());
    }
}

/// Whether attempts to get a client are made only where there is none.
pub open spec fn connects_without_client<C>(
    state: Runtime<C>,
    config: Config,
    run: Seq<Step<C>>,
) -> bool {
    forall|n: int|
        0 <= n < run.len() && ((#[trigger] run[n]) is Connected || run[n] is ConnectFailed)
            ==> after_run(state, config, run.take(n)).cassandra is None
}

/// What the gauge of the client shows after the changes, from `before` on.
pub open spec fn ready_gauge(before: bool, metrics: Seq<Metric>) -> bool
    decreases metrics.len(),
{
    if metrics.len() == 0 {
        before
    } else {
        match metrics.last() {
            Metric::CassandraReady(ready) => ready,
            _ => ready_gauge(before, metrics.drop_last()),
        }
    }
}

/// What the gauge of the last success shows after the changes, from `before` on.
pub open spec fn success_gauge(before: u64, metrics: Seq<Metric>) -> u64
    decreases metrics.len(),
{
    if metrics.len() == 0 {
        before
    } else {
        match metrics.last() {
            Metric::LastSuccess(time) => time,
            _ => success_gauge(before, metrics.drop_last()),
        }
    }
}

/// The gauge of the last success always shows the time of the last success.
pub proof fn law_success_gauge_shows_the_state<C>(
    state: Runtime<C>,
    config: Config,
    run: Seq<Step<C>>,
)
    ensures
        success_gauge(state.last_success, run_metrics(state, config, run)) == after_run(
            state,
            config,
            run,
        ).last_success,
    decreases run.len(),
{
    if run.len() > 0 {
        let front = run.drop_last();
        law_success_gauge_shows_the_state(state, config, front);
        let before = after_run(state, config, front);
        let added = step_metrics(before, config, run.last());
        lemma_gauges_add(true, state.last_success, run_metrics(state, config, front), added);
        lemma_step_gauges(before, config, run.last());
    }
}

/// The gauge of the client always shows whether there is one, if attempts to get one
/// are made only where there is none, as `Reconnect::next` makes them.
pub proof fn law_ready_gauge_shows_the_state<C>(
    state: Runtime<C>,
    config: Config,
    run: Seq<Step<C>>,
)
    requires
        connects_without_client(state, config, run),
    ensures
        ready_gauge(state.cassandra is Some, run_metrics(state, config, run)) == (after_run(
            state,
            config,
            run,
        ).cassandra is Some),
    decreases run.len(),
{
    if run.len() > 0 {
        let front = run.drop_last();
        assert forall|n: int|
            0 <= n < front.len() && ((#[trigger] front[n]) is Connected
                || front[n] is ConnectFailed) implies after_run(
            state,
            config,
            front.take(n),
        ).cassandra is None by {
            assert(front[n] == run[n]);
            assert(front.take(n) == run.take(n));
        }
        law_ready_gauge_shows_the_state(state, config, front);
        let before = after_run(state, config, front);
        let added = step_metrics(before, config, run.last());
        lemma_gauges_add(
            state.cassandra is Some,
            state.last_success,
            run_metrics(state, config, front),
            added,
        );
        lemma_step_gauges(before, config, run.last());
        assert(run.take(run.len() - 1) == front);
        assert(run[run.len() - 1] == run.last());
    }
}

proof fn lemma_gauges_add(ready: bool, success: u64, first: Seq<Metric>, second: Seq<Metric>)
    ensures
        ready_gauge(ready, first + second) == ready_gauge(ready_gauge(ready, first), second),
        success_gauge(success, first + second) == success_gauge(
            success_gauge(success, first),
            second,
        ),
    decreases second.len(),
{
    if second.len() == 0 {
        assert(first + second == first);
    } else {
        lemma_gauges_add(ready, success, first, second.drop_last());
        assert((first + second).drop_last() == first + second.drop_last());
    }
}

proof fn lemma_step_gauges<C>(state: Runtime<C>, config: Config, step: Step<C>)
    ensures
        success_gauge(state.last_success, step_metrics(state, config, step)) == after_step(
            state,
            config,
            step,
        ).last_success,
        !(step is ConnectFailed) || state.cassandra is None ==> ready_gauge(
            state.cassandra is Some,
            step_metrics(state, config, step),
        ) == (after_step(state, config, step).cassandra is Some),
{
    reveal_with_fuel(success_gauge, 4);
    reveal_with_fuel(ready_gauge, 4);
    let metrics = step_metrics(state, config, step);
    assert(metrics.len() >= 1 ==> metrics.drop_last().len() == metrics.len() - 1);
    assert(metrics.len() >= 2 ==> metrics.drop_last().drop_last().len() == metrics.len() - 2);
}

} // verus!
