//! The metrics that the program exposes.

use vstd::prelude::*;

use crate::workload::ReadSource;

verus! {

/// What is counted.
#[derive(Clone, Copy, Debug, PartialEq, Eq, Structural)]
pub enum Counter {
    /// Reads that succeeded: they found a row, or none where none was expected.
    Reads(ReadSource),
    /// Reads that found a row.
    ReadsFound(ReadSource),
    /// Reads that found no row.
    ReadsEmpty(ReadSource),
    /// Reads that failed, or missed a key that had been written.
    ReadErrors(ReadSource),
    /// Writes that succeeded.
    Writes,
    /// Writes that failed.
    WriteErrors,
    /// Attempts to get a client.
    ConnectAttempts,
    /// Attempts to get a client that gave one.
    Connects,
}

/// A change of a metric.
#[derive(Clone, Copy, Debug, PartialEq, Eq, Structural)]
pub enum Metric {
    /// The counter goes up by one.
    Count(Counter),
    /// The gauge of whether there is a client: one or zero.
    CassandraReady(bool),
    /// The gauge of the last success: the seconds since the Unix epoch.
    LastSuccess(u64),
}

/// The name under which a counter is exposed.
pub open spec fn counter_name(counter: Counter) -> Seq<char> {
    match counter {
        Counter::Reads(_) => "miniapp_reads_total"@,
        Counter::ReadsFound(_) => "miniapp_reads_found_total"@,
        Counter::ReadsEmpty(_) => "miniapp_reads_empty_total"@,
        Counter::ReadErrors(_) => "miniapp_read_errors_total"@,
        Counter::Writes => "miniapp_writes_total"@,
        Counter::WriteErrors => "miniapp_write_errors_total"@,
        Counter::ConnectAttempts => "miniapp_cassandra_connect_attempts_total"@,
        Counter::Connects => "miniapp_cassandra_reconnects_total"@,
    }
}

/// The name under which a metric is exposed.
pub open spec fn metric_name(metric: Metric) -> Seq<char> {
    match metric {
        Metric::Count(counter) => counter_name(counter),
        Metric::CassandraReady(_) => "miniapp_cassandra_ready"@,
        Metric::LastSuccess(_) => "miniapp_last_success_timestamp"@,
    }
}

impl Metric {
    /// The name under which the metric is exposed.
    pub fn name(self) -> (name: &'static str)
        ensures
            name@ == metric_name(self),
    {
        match self {
            Metric::Count(counter) => counter.name(),
            Metric::CassandraReady(_) => "miniapp_cassandra_ready",
            Metric::LastSuccess(_) => "miniapp_last_success_timestamp",
        }
    }
}

/// The source that a counter of reads is labelled with.
pub open spec fn counter_source(counter: Counter) -> Option<ReadSource> {
    match counter {
        Counter::Reads(source) => Some(source),
        Counter::ReadsFound(source) => Some(source),
        Counter::ReadsEmpty(source) => Some(source),
        Counter::ReadErrors(source) => Some(source),
        _ => None,
    }
}

impl Counter {
    /// The name under which the counter is exposed.
    pub fn name(self) -> (name: &'static str)
        ensures
            name@ == counter_name(self),
    {
        match self {
            Counter::Reads(_) => "miniapp_reads_total",
            Counter::ReadsFound(_) => "miniapp_reads_found_total",
            Counter::ReadsEmpty(_) => "miniapp_reads_empty_total",
            Counter::ReadErrors(_) => "miniapp_read_errors_total",
            Counter::Writes => "miniapp_writes_total",
            Counter::WriteErrors => "miniapp_write_errors_total",
            Counter::ConnectAttempts => "miniapp_cassandra_connect_attempts_total",
            Counter::Connects => "miniapp_cassandra_reconnects_total",
        }
    }

    /// The value of the label `read_source`, where the counter has it.
    pub fn read_source(self) -> (source: Option<ReadSource>)
        ensures
            source == counter_source(self),
    {
        match self {
            Counter::Reads(source) => Some(source),
            Counter::ReadsFound(source) => Some(source),
            Counter::ReadsEmpty(source) => Some(source),
            Counter::ReadErrors(source) => Some(source),
            _ => None,
        }
    }
}

/// A counter of reads is labelled with the source of the reads that it counts, and the
/// other counters with none.
pub proof fn law_counters_of_reads_are_labelled(source: ReadSource)
    ensures
        counter_source(Counter::Reads(source)) == Some(source),
        counter_source(Counter::ReadsFound(source)) == Some(source),
        counter_source(Counter::ReadsEmpty(source)) == Some(source),
        counter_source(Counter::ReadErrors(source)) == Some(source),
        counter_source(Counter::Writes) is None,
        counter_source(Counter::WriteErrors) is None,
        counter_source(Counter::ConnectAttempts) is None,
        counter_source(Counter::Connects) is None,
{
}

/// Two counters that are exposed under the same name and label are the same counter.
pub proof fn law_counters_are_told_apart(first: Counter, second: Counter)
    requires
        counter_name(first) == counter_name(second),
        counter_source(first) == counter_source(second),
    ensures
        first == second,
{
    reveal_strlit("miniapp_reads_total");
    reveal_strlit("miniapp_reads_found_total");
    reveal_strlit("miniapp_reads_empty_total");
    reveal_strlit("miniapp_read_errors_total");
    reveal_strlit("miniapp_writes_total");
    reveal_strlit("miniapp_write_errors_total");
    reveal_strlit("miniapp_cassandra_connect_attempts_total");
    reveal_strlit("miniapp_cassandra_reconnects_total");
    let a = counter_name(first);
    let b = counter_name(second);
    assert(a.len() == b.len());
    assert(a[14] == b[14]);
    assert(a[8] == b[8]);
}

} // verus!
