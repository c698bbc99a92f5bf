[package]
name = "oxeye"
version = "0.1.0"
edition = "2021"
publish = false

[dependencies]
tower-lsp = "*"
tokio = { version = "*", features = ["io-std", "rt-multi-thread", "sync"] }
serde_json = "*"
