[package]
name = "ws_echo"
version = "0.1.0"
edition = "2021"
publish = false

[dependencies]
tokio = { version = "1", features = ["rt-multi-thread", "net", "sync", "macros"] }
tokio-tungstenite = "*"
futures-util = "0.3"
tracing = "0.1"
tracing-subscriber = "0.3"
