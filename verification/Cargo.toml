[package]
name = "nearlend"
version = "0.6.0"
edition = "2021"
publish = false

[dependencies]
near-sdk = { version = "=5.29.1", features = ["legacy", "non-contract-usage"] }
near-contract-standards = "=5.29.1"
