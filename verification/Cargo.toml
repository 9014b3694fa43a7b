[package]
name = "event_bridge"
version = "0.1.0"
edition = "2021"
publish = false

[dependencies]
anyhow = "=1.0.104"
axum = "=0.8.9"
dotenvy = "=0.15.7"
futures-util = "=0.3.34"
log = "=0.4.34"
obws = { version = "=0.15.0", features = ["events"] }
serde = { version = "=1.0.229", features = ["derive"] }
serde_json = "=1.0.154"
socketioxide = "=0.18.7"
tokio = { version = "=1.54.1", features = ["full"] }
tokio-stream = "=0.1.19"
tower = "=0.5.3"
tower-http = { version = "=0.7.1", features = ["cors"] }
