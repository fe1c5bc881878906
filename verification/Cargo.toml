[package]
name = "terminal_sessions"
version = "0.1.0"
edition = "2021"
publish = false

[dependencies]
tokio = { version = "1", features = ["sync", "rt", "rt-multi-thread", "macros", "time", "io-util", "io-std"] }
uuid = { version = "1", features = ["v4"] }
portable-pty = "0.8"
