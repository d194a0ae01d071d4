[package]
name = "tezedge"
version = "0.1.0"
edition = "2021"
publish = false

[dependencies]
num = "0.4"
slog = "2"
dns-lookup = "1"
serde = { version = "1", features = ["derive"] }
serde_json = { version = "1", features = ["raw_value"] }
anyhow = "1"
tokio = { version = "1", features = ["rt", "sync"] }
wait-timeout = "0.2"
lazy_static = "1"
