[package]
name = "facerust"
version = "0.1.0"
edition = "2021"
publish = false

[dependencies]
clap = "*"
notify = "*"
opencv = "*"
serde = { version = "*", features = ["derive"] }
thiserror = "*"
tokio = { version = "*", features = ["rt-multi-thread", "sync", "time", "macros"] }
tracing = "*"
tracing-subscriber = "*"
