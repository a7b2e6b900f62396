[package]
name = "taotie"
version = "0.1.0"
edition = "2021"
publish = false

[dependencies]
anyhow = "=1.0.104"
clap = { version = "=4.6.7", features = ["derive"] }
crossbeam-channel = "=0.5.17"
datafusion = "=55.2.0"
oneshot = { version = "=0.2.1", features = ["std"] }
reedline-repl-rs = "=1.3.0"
tokio = { version = "=1.53.2", features = ["rt", "rt-multi-thread"] }
