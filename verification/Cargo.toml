[package]
name = "clarinet_tooling"
version = "0.1.0"
edition = "2021"
publish = false

[dependencies]
crossbeam-channel = "=0.5.17"
serde_json = "=1.0.154"
tokio = { version = "=1.54.1", features = ["sync"] }
tower-lsp-server = "=0.23.0"
