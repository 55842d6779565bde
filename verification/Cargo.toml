[package]
name = "relay_middleware"
version = "0.1.0"
edition = "2021"
publish = false

[dependencies]
log = { version = "0.4", features = ["kv"] }
napi = { version = "2", features = ["async", "napi6", "serde-json"] }
regex = "1"
serde = { version = "1", features = ["derive"] }
serde_json = "1"
sha2 = "0.10"
tokio = { version = "1", features = ["rt", "sync"] }
tokio-stream = "0.1"
