[package]
name = "hl-backtest"
version = "0.1.0"
edition = "2021"
publish = false

[dependencies]
anyhow = "=1.0.104"
arrow = { version = "*", default-features = false }
aws-config = "1"
aws-sdk-s3 = "1"
chrono = "=0.4.45"
clap = { version = "=4.6.7", features = ["derive"] }
csv = "=1.4.0"
futures = "=0.3.34"
lz4_flex = "=0.11.6"
parquet = { version = "*", default-features = false, features = ["arrow", "snap"] }
rayon = "=1.12.0"
reqwest = { version = "=0.12.28", default-features = false, features = ["json", "rustls-tls"] }
serde = { version = "=1.0.229", features = ["derive"] }
serde_json = "=1.0.154"
tokio = { version = "=1.54.1", features = ["full"] }
