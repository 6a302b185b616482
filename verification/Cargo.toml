[package]
name = "serial_keel"
version = "0.1.0"
edition = "2021"
publish = false

[dependencies]
serde_json = "1"
serde = { version = "1", features = ["derive"] }
axum = { version = "0.5", features = ["ws", "headers"] }
futures = "0.3"
headers = "0.3"
tokio = { version = "1", features = ["full"] }
tracing = "0.1"
