[package]
name = "piece_selector"
version = "0.1.0"
edition = "2021"
publish = false

[dependencies]
dashmap = "=6.2.1"
rand = "=0.9.5"
tokio = { version = "1", features = ["macros", "rt", "sync", "time"] }
tokio-stream = "0.1"
tokio-util = "0.7"
tonic = { version = "0.12", default-features = false }
tracing = "0.1"
