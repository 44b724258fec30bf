[package]
name = "pocketdevos"
version = "0.2.0"
edition = "2021"
publish = false

[dependencies]
base64 = "0.22"
rand = "0.8"
uuid = { version = "1", features = ["v4"] }
chrono = { version = "0.4", default-features = false, features = ["std"] }
axum = { version = "0.7", features = ["ws"] }
tokio = { version = "1", features = ["full"] }
tower-http = { version = "0.5", features = ["cors", "fs", "trace"] }
reqwest = { version = "0.12", default-features = false, features = ["json", "stream"] }
portable-pty = "0.8"
serde = { version = "1", features = ["derive"] }
serde_json = "1"
futures-util = "0.3"
async-stream = "0.3"
tracing = "0.1"
tracing-subscriber = "0.3"
anyhow = "1"
