[package]
name = "driftwatch"
version = "0.1.0"
edition = "2021"
publish = false

[dependencies]
anyhow = "=1.0.104"
serde = { version = "=1.0.229", features = ["derive"] }
serde_json = "=1.0.154"
toml = "=0.8.23"
syn = { version = "2", features = ["full"] }
quote = "=1.0.47"
proc-macro2 = "=1.0.107"
