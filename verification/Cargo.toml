[package]
name = "tab_link"
version = "0.1.0"
edition = "2021"
publish = false

[dependencies]
anyhow = "1"
async-tungstenite = { version = "0.8", features = ["tokio-runtime"] }
clap = "2"
futures = "0.3"
log = "0.4"
simplelog = "0.8"
tokio = { version = "0.2", features = ["full"] }
tungstenite = "0.11"

[dev-dependencies]
bincode = "1"
