[package]
name = "hft_core"
version = "0.1.0"
edition = "2021"

[dependencies]
anyhow = "1"
crossbeam-channel = "0.5"
crossbeam-utils = "0.8"
dashmap = "5"
libc = "0.2"
num_cpus = "1"
parking_lot = "0.12"
rand = "0.8"
serde = { version = "1", features = ["derive"] }
thiserror = "1"
tokio = { version = "1", features = ["sync"] }
tracing = "0.1"
