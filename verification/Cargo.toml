[package]
name = "redis_server"
version = "0.1.0"
edition = "2021"
publish = false

[dependencies]
anyhow = "1"
log = "0.4"
tokio = { version = "1", features = ["net", "rt", "signal", "sync"] }
