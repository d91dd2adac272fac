[package]
name = "signal_relay"
version = "0.1.0"
edition = "2021"
publish = false

[dependencies]
anyhow = "1"
axum = "0.6"
bytes = "1"
chrono = "0.4"
dashmap = "5"
dotenvy = "0.15"
futures = "0.3"
redis = "0.23"
serde = { version = "1", features = ["derive"] }
tokio = { version = "1", features = ["full"] }
tokio-cron-scheduler = "0.9"
tokio-util = { version = "0.7", features = ["codec"] }
