[package]
name = "logstream"
version = "0.1.0"
edition = "2021"
publish = false

[dependencies]
chrono = "*"
tokio = { version = "*", features = ["net", "rt-multi-thread", "macros", "time"] }
tokio-tungstenite = "*"
futures-util = "*"
