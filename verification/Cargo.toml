[package]
name = "tx_engine"
version = "0.1.0"
edition = "2021"
publish = false

[dependencies]
csv = "*"
serde = { version = "*", features = ["derive"] }
tokio = { version = "*", features = ["sync", "macros", "rt-multi-thread"] }
