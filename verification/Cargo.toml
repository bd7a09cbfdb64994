[package]
name = "nostr_bot"
version = "0.1.0"
edition = "2021"
publish = false

[dependencies]
secp256k1 = { version = "0.27", features = ["bitcoin_hashes", "rand-std"] }
tokio = { version = "1", features = ["sync", "rt", "macros"] }
log = "0.4"
env_logger = "0.10"
