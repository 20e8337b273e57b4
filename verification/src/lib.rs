//! A Cassandra load generator and downtime detector.

pub mod cassandra;
pub mod config;
pub mod environment;
pub mod http;
pub mod metrics;
pub mod runs;
pub mod state;
pub mod text;
pub mod util;
pub mod workload;
