[package]
name = "trellis"
version = "0.1.0"
edition = "2021"
publish = false

[dependencies]
serde = { version = "*", features = ["derive"] }
serde_json = "*"
tokio = { version = "*", features = ["rt-multi-thread", "net", "io-util", "sync", "macros", "fs", "time"] }
futures = "*"
linked-hash-map = "*"
async-stream = "*"
tokio-stream = "*"
tokio-util = { version = "*", features = ["io"] }
