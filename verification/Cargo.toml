[package]
name = "game_core"
version = "0.1.0"
edition = "2021"
publish = false

[dependencies]
alloy = { version = "=1.8.3", default-features = false, features = ["contract", "provider-http", "signer-local", "sol-types"] }
alloy-primitives = { version = "=1.7.3", features = ["k256", "serde"] }
alloy-signer = "=1.8.3"
alloy-signer-local = "=1.8.3"
alloy-sol-types = "=1.7.3"
anyhow = "=1.0.104"
bincode = { version = "=2.0.1", features = ["serde"] }
serde = { version = "=1.0.229", features = ["derive"] }
tokio = { version = "=1.54.1", features = ["macros", "rt-multi-thread", "signal", "sync", "time"] }
tracing = "=0.1.44"
tracing-subscriber = { version = "=0.3.23", features = ["env-filter"] }
