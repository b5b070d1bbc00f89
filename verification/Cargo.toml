[package]
name = "record_stream"
version = "0.1.0"
edition = "2021"
publish = false

[dependencies]
fuel-core-chain-config = "0.20"
fuel-core-types = "0.20"
serde = { version = "1", features = ["derive"] }
serde_json = "1"
serde_with = "1.11"
