[package]
name = "mempool_tracker"
version = "0.1.0"
edition = "2021"
publish = false

[dependencies]
anyhow = "*"
async-channel = "*"
bitcoin = "*"
bitcoin_hashes = "*"
bitcoind = "*"
futures-util = "*"
hex = "*"
log = "*"
r2d2 = "*"
r2d2_sqlite = "*"
rusqlite = { version = "*", features = ["bundled"] }
tokio = { version = "*", features = ["rt-multi-thread", "macros", "time"] }
