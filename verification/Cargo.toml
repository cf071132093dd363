[package]
name = "pulse"
version = "0.1.0"
edition = "2021"
publish = false

[dependencies]
blake3 = "1"
ed25519-dalek = { version = "2", features = ["rand_core"] }
rand = "0.8"
lz4_flex = "0.11"
hex = "0.4"
argon2 = "0.5"
zeroize = "1"
serde = { version = "1", features = ["derive"] }
serde_json = "1"
thiserror = "1"
rusqlite = { version = "0.31", features = ["bundled"] }
rocksdb = { version = "0.22", default-features = false, features = ["lz4"] }
libp2p = { version = "0.53", features = ["tokio", "tcp", "noise", "yamux", "quic", "gossipsub", "kad", "identify", "macros"] }
tokio = { version = "1", features = ["rt-multi-thread", "macros", "sync", "time"] }
futures = "0.3"
tracing = "0.1"
dirs-next = "2"
