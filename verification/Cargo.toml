[package]
name = "fleet"
version = "0.1.0"
edition = "2021"
publish = false

[dependencies]
rand = "=0.8.8"
dashmap = "6"
tokio = { version = "=1.54.1", features = ["rt-multi-thread", "macros", "sync", "net", "signal", "time"] }
axum = "=0.7.9"
tower-http = { version = "=0.5.2", features = ["cors", "trace"] }
serde = { version = "=1.0.229", features = ["derive"] }
serde_json = "=1.0.154"
prost = "=0.13.5"
tracing = "=0.1.44"
tracing-subscriber = { version = "=0.3.23", features = ["env-filter"] }
anyhow = "=1.0.104"
thiserror = "=1.0.69"
futures = "=0.3.34"
tokio-stream = { version = "=0.1.19", features = ["sync"] }
reqwest = { version = "=0.12.28", default-features = false }
