[package]
name = "inator"
version = "0.1.0"
edition = "2021"
publish = false

[dependencies]
bevy = { version = "=0.17.3", default-features = false, features = ["bevy_log"] }
bincode = { version = "=2.0.1", features = ["serde"] }
serde = { version = "=1.0.229", features = ["derive"] }
tokio = { version = "=1.54.1", features = ["rt-multi-thread", "net", "io-util", "sync", "macros"] }
tokio-util = "=0.7.20"
typetag = "=0.2.23"
uuid = { version = "=1.29.0", features = ["v4", "serde"] }
