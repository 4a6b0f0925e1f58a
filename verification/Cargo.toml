[package]
name = "reesolve"
version = "0.1.0"
edition = "2021"
publish = false

[dependencies]
tokio = { version = "*", features = ["rt-multi-thread", "macros", "sync", "fs", "io-util"] }
futures = "*"
clap = "*"
tracing = "*"
tracing-subscriber = { version = "*", features = ["env-filter"] }
trust-dns-resolver = "*"
trust-dns-proto = "*"

[dev-dependencies]
serde_json = "*"
csv = "*"
