[package]
name = "offline_cache"
version = "0.1.0"
edition = "2021"
publish = false

[dependencies]
tokio-util = "*"
tokio = { version = "*", features = ["rt-multi-thread", "macros", "fs", "io-util", "sync", "time"] }
reqwest = { version = "*", default-features = false, features = ["stream"] }
futures-util = "*"
serde = { version = "*", features = ["derive"] }
serde_json = "*"
