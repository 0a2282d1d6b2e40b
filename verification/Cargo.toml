[package]
name = "blvm_fibre"
version = "0.1.0"
edition = "2021"

[dependencies]
anyhow = "1"
blvm-node = { version = "=0.1.83", default-features = false, features = ["heed3", "redb", "production", "utxo-commitments", "libc", "nix"] }
blvm-protocol = { version = "=0.1.39", default-features = false }
blvm-sdk = { version = "=0.1.20", default-features = false }
blvm-sdk-macros = "0.1"
serde = { version = "1", features = ["derive"] }
tokio = { version = "1", features = ["rt-multi-thread", "macros", "net", "sync", "time"] }
toml = "0.8"
tracing = "0.1"
