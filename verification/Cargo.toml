[package]
name = "chinesium"
version = "0.1.0"
edition = "2021"
publish = false

[dependencies]
tokio = { version = "1", features = ["sync", "net", "time", "rt", "macros"] }
tokio-stream = { version = "0.1", features = ["sync"] }
futures = "0.3"
axum = "0.7"
