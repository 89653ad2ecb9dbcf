[package]
name = "memo_bench"
version = "0.1.0"
edition = "2021"
publish = false

[dependencies]
base64 = "=0.22.1"
bincode = "=1.3.3"
futures-util = "0.3"
rand = "=0.8.8"
reqwest = { version = "0.11", default-features = false }
serde = { version = "1", features = ["derive"] }
serde_json = "=1.0.151"
solana-sdk = "=2.3.1"
tokio = { version = "1", features = ["rt-multi-thread", "macros", "time", "sync"] }
tokio-tungstenite = "*"
