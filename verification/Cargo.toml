[package]
name = "rusftp"
version = "0.1.0"
edition = "2021"
publish = false

[dependencies]
tokio = { version = "1", features = ["rt", "sync", "io-util", "macros"] }
futures = "0.3"
