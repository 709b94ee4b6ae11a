[package]
name = "ledger_sync"
version = "0.1.0"
edition = "2021"
publish = false

[dependencies]
tagged-base64 = "*"
serde = { version = "1", features = ["derive"] }
serde_json = "1"
bincode = "1"
toml = "*"
