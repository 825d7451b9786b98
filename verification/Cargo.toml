[package]
name = "matching_server"
version = "0.1.0"
edition = "2021"
publish = false

[dependencies]
getrandom = "0.3"
axum = "0.8"
tokio = { version = "1", features = ["full"] }
tower-http = { version = "0.6", features = ["cors"] }
tracing = "0.1"
tracing-subscriber = { version = "0.3", features = ["env-filter"] }
serde = { version = "1", features = ["derive"] }
serde_json = "1"
