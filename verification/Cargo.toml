[package]
name = "qlib_data"
version = "0.1.0"
edition = "2021"
publish = false

[dependencies]
anyhow = "=1.0.104"
async-std = "1"
chrono = { version = "=0.4.45", default-features = false, features = ["clock"] }
clap = { version = "=3.2.25", features = ["derive"] }
csv = "=1.4.0"
dotenvy = "=0.15.7"
pbr = "=1.1.1"
polars = { version = "=0.27.2", features = ["lazy", "csv-file"] }
qshare = "=0.1.4"
serde_json = "=1.0.154"
tokio = { version = "=1.54.1", features = ["full"] }
tracing = "=0.1.44"
tracing-subscriber = { version = "=0.3.23", features = ["env-filter"] }
