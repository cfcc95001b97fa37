[package]
name = "routing"
version = "0.1.0"
edition = "2021"
publish = false

[dependencies]
bincode = "1"
bytes = "0.5"
ed25519-dalek = "1"
futures = "0.3"
itertools = "0.9"
lru_time_cache = "0.11"
qp2p = "0.8"
serde = { version = "1", features = ["derive"] }
sha3 = "0.10"
threshold_crypto = "0.4"
tokio = { version = "0.2", features = ["sync", "time", "rt-core", "macros"] }
xor_name = "1"
