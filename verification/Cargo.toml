[package]
name = "poker"
version = "0.1.0"
edition = "2021"
publish = false

[dependencies]
poker_eval = "*"
rand = "0.9"
serde = { version = "1", features = ["derive"] }
serde_json = "1"
tokio = { version = "1", features = ["rt-multi-thread", "macros", "net", "sync", "time"] }
tokio-tungstenite = "*"
futures-util = "0.3"
