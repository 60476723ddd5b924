[package]
name = "rust_tx_ledger"
version = "0.1.0"
edition = "2021"
publish = false

[dependencies]
rust_decimal = "1"
csv = "1"
serde = { version = "1", features = ["derive"] }
clap = { version = "4", features = ["derive"] }
tokio = { version = "1", features = ["full"] }
futures = "0.3"
num_cpus = "1"
thiserror = "2"
