[package]
name = "scavenger_miner"
version = "0.1.0"
edition = "2021"
publish = false

[dependencies]
anyhow = "1"
bech32 = "0.9"
blake2 = "0.10"
chrono = "0.4"
clap = { version = "4", features = ["derive", "env"] }
ed25519-dalek = { version = "2", features = ["rand_core"] }
hex = "0.4"
rand = "0.8"
rand_chacha = "0.3"
reqwest = { version = "0.12", default-features = false, features = ["json", "rustls-tls"] }
serde = { version = "1", features = ["derive"] }
serde_json = "1"
tokio = { version = "1", features = ["full"] }
tracing = "0.1"
tracing-subscriber = { version = "0.3", features = ["env-filter"] }

[dev-dependencies]
ciborium = "0.2"
