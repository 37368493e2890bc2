[package]
name = "bar_daemon"
version = "0.1.0"
edition = "2021"
publish = false

[dependencies]
tokio = { version = "*", features = ["rt-multi-thread", "net", "io-util", "sync", "time", "macros"] }
clap = { version = "*", features = ["derive"] }
uuid = { version = "*", features = ["v4"] }
