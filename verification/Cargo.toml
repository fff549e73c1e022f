[package]
name = "rum"
version = "0.1.0"
edition = "2021"
publish = false

[dependencies]
serde = { version = "*", features = ["derive"] }
serde_json = "*"
time = "*"
tokio = { version = "*", features = ["rt", "rt-multi-thread", "time", "io-util", "macros"] }
tracing = "*"
