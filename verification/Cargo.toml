[package]
name = "secs_transport"
version = "0.1.0"
edition = "2021"
publish = false

[dependencies]
tokio-util = { version = "0.7", features = ["codec"] }
tokio = { version = "1", features = ["rt", "rt-multi-thread", "sync", "time", "io-util", "macros"] }
tokio-serial = { version = "5", default-features = false }
futures = "0.3"
thiserror = "*"
