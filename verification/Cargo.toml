[package]
name = "decentralized_access_control"
version = "0.1.0"
edition = "2021"
publish = false

[dependencies]
rs_merkle = "=1.5.0"
ed25519-dalek = { version = "=2.2.0", features = ["serde"] }
serde = { version = "=1.0.229", features = ["derive"] }
serde_json = "=1.0.154"
anyhow = "=1.0.104"
bytes = { version = "=1.12.1", features = ["serde"] }
dashmap = "=6.2.1"
sha256 = "=1.6.0"
tokio = { version = "=1.54.1", features = ["rt-multi-thread", "macros", "fs", "io-util", "net", "sync", "time"] }
tokio-stream = "=0.1.19"
tokio-util = { version = "=0.7.20", features = ["io"] }
iroh = { version = "=1.4.1", default-features = false }
iroh-gossip = { version = "=0.101.0", default-features = false, features = ["net"] }
