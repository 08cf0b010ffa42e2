[package]
name = "tmux_mobile"
version = "0.1.0"
edition = "2021"
publish = false

[dependencies]
base64 = "*"
dirs = "*"
futures-util = "*"
serde = { version = "*", features = ["derive"] }
serde_json = "*"
tokio = { version = "*", features = ["rt", "rt-multi-thread", "process", "time", "net", "macros", "sync", "io-util"] }
tokio-tungstenite = "*"
toml = "*"
uuid = { version = "*", features = ["v4"] }
