[package]
name = "aa_bundler"
version = "0.1.0"
edition = "2021"
publish = false

[dependencies]
alloy-primitives = "1.5"
alloy-rpc-types-eth = "1.1"
alloy-sol-types = "1.5"
anyhow = "1"
clap = { version = "4.5", features = ["derive", "env"] }
parking_lot = "0.12"
rdkafka = "0.38"
serde = { version = "1", features = ["derive"] }
serde_json = "1"
sha3 = "0.10"
shellexpand = "3.1"
thiserror = "2"
tokio = { version = "1.48", features = ["macros", "rt", "sync", "time"] }
tracing = "0.1"
