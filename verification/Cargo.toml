[package]
name = "ingest_core"
version = "0.1.0"
edition = "2021"
publish = false

[dependencies]
chrono = "*"
hostname = "*"
tokio = { version = "*", features = ["full"] }
tokio-stream = "*"
tokio-util = { version = "*", features = ["codec"] }
futures = "*"
listenfd = "*"
socket2 = "*"
