[package]
name = "eth_rpc_check"
version = "0.1.0"
edition = "2021"
publish = false

[dependencies]
serde_json = "*"
url = "*"
chrono = "*"
reqwest = { version = "*", default-features = false, features = ["json"] }
tokio = { version = "*", features = ["rt-multi-thread", "macros", "time"] }
tokio-tungstenite = "*"
futures = "*"
clap = { version = "*", features = ["derive"] }
csv = "*"
prettytable-rs = "*"
