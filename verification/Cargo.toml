[package]
name = "mini_cassandra_loadgen"
version = "1.0.4"
edition = "2021"
publish = false

[dependencies]
anyhow = "1"
axum = "0.7"
metrics = "0.22"
metrics-exporter-prometheus = { version = "0.13", default-features = false }
rand = { version = "0.8", features = ["small_rng"] }
scylla = "0.14"
thiserror = "1"
tokio = { version = "1", features = ["macros", "net", "rt-multi-thread", "signal", "sync", "time"] }
tracing = "0.1"
tracing-subscriber = { version = "0.3", features = ["env-filter", "json"] }
uuid = { version = "1", features = ["v4"] }
