[package]
name = "pengport_adapter_minecraft"
version = "0.1.0"
edition = "2021"
publish = false

[dependencies]
regex = "1"
regex-syntax = "0.8"
subtle = "2"
serde = { version = "1", features = ["derive"] }
serde_json = "1"
tokio = { version = "1", features = ["full"] }
axum = "*"
futures-util = "0.3"
tokio-stream = { version = "0.1", features = ["sync"] }
notify = "*"
tracing = "0.1"
tracing-subscriber = { version = "0.3", features = ["env-filter"] }
anyhow = "1"
rcon = { version = "*", features = ["rt-tokio"] }
