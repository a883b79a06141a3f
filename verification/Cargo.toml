[package]
name = "roslyn_proxy"
version = "0.1.0"
edition = "2021"
publish = false

[dependencies]
anyhow = "*"
serde_json = "*"
tokio = { version = "*", features = ["io-util", "io-std", "macros", "process", "rt-multi-thread", "sync"] }
url = "*"
