[package]
name = "cln-plugin"
version = "0.1.0"
edition = "2021"
publish = false

[dependencies]
anyhow = "1"
bytes = "1"
futures = "0.3"
log = { version = "0.4", features = ["std"] }
serde_json = { version = "1", features = ["preserve_order"] }
tokio = { version = "1", features = ["io-std", "io-util", "rt", "sync"] }
tokio-stream = "0.1"
tokio-util = { version = "0.7", features = ["codec"] }
