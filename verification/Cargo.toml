[package]
name = "revaultd"
version = "0.1.0"
edition = "2021"
publish = false

[dependencies]
revault_tx = "0.5.0"
rusqlite = { version = "*", features = ["bundled"] }
serde_json = "*"
log = "*"
jsonrpc-core = "*"
