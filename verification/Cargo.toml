[package]
name = "axum-observability"
version = "2.0.0"
edition = "2021"
publish = false

[dependencies]
axum = { version = "0.8", default-features = false, features = ["matched-path", "tokio", "http1"] }
http-body = "1"
pin-project-lite = "0.2"
serde = { version = "1", features = ["derive"] }
serde_json = "1"
time = { version = "0.3", features = ["formatting"] }
tower-layer = "0.3"
tower-service = "0.3"
tracing = "0.1.44"
tracing-subscriber = "0.3.23"
uuid = { version = "1", features = ["v4"] }
