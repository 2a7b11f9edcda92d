[package]
name = "herdr_targets"
version = "0.1.0"
edition = "2021"
publish = false

[dependencies]
serde_json = "1"
sha2 = "0.10"
toml = "0.8"
tracing = "0.1"
