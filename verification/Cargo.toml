[package]
name = "todoki"
version = "0.1.0"
edition = "2021"
publish = false

[dependencies]
anyhow = "=1.0.104"
agent-client-protocol = "=5.0.0"
axum = { version = "=0.7.9", features = ["ws"] }
chrono = "=0.4.45"
clap = { version = "=4.6.7", features = ["derive", "env"] }
futures-util = "=0.3.34"
gotcha = { version = "=0.4.1", features = ["openapi"] }
gotcha_core = "=0.4.1"
hex = "=0.4.3"
hostname = "=0.4.2"
machine-uid = "=0.5.4"
serde = { version = "=1.0.229", features = ["derive"] }
serde_json = "=1.0.154"
sha2 = "=0.10.9"
tokio = { version = "=1.54.1", features = ["full"] }
tokio-tungstenite = "=0.24.0"
toml = "=0.8.23"
tracing = "=0.1.44"
uuid = { version = "=1.29.0", features = ["v4", "serde"] }
