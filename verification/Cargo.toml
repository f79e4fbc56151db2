[package]
name = "relaycode"
version = "0.1.0"
edition = "2021"
publish = false

[dependencies]
tokio = { version = "1", features = ["sync", "rt-multi-thread", "time", "macros", "net"] }
rand = "0.8"
serde = { version = "1", features = ["derive"] }
serde_json = "1"
axum = "0.8"
futures = "0.3"
async-stream = "0.3"
chrono = "0.4"
