[package]
name = "drop_ledger"
version = "0.1.0"
edition = "2021"
publish = false

[dependencies]
bs58 = "=0.5.1"
near-sdk = { version = "=5.29.1", default-features = false, features = ["non-contract-usage"] }

[dev-dependencies]
ed25519-dalek = "*"
