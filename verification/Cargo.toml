[package]
name = "trade_ingest"
version = "0.1.0"
edition = "2021"
publish = false

[dependencies]
encoding_rs = "*"
walkdir = "*"
notify = "*"
serde = { version = "*", features = ["derive"] }
serde_json = "*"
