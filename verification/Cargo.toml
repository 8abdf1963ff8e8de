[package]
name = "actionlog"
version = "0.1.0"
edition = "2021"
publish = false

[dependencies]
indexmap = "=2.14.2"
chrono = "=0.4.45"
serde = { version = "=1.0.229", features = ["derive"] }
serde_json = "=1.0.151"
tokio = { version = "=1.53.2", features = ["rt-multi-thread", "macros", "sync", "time", "signal"] }
tokio-util = { version = "=0.7.19", features = ["rt"] }
tracing = "=0.1.44"
tracing-subscriber = "=0.3.23"
futures = "=0.3.34"
axum = "=0.8.9"
reqwest = { version = "=0.13.5", default-features = false }
bytes = "=1.12.1"
rdkafka = "=0.39.0"
