[package]
name = "vigilant_waddle"
version = "0.1.0"
edition = "2021"
publish = false

[dependencies]
rust_decimal = { version = "=1.43.0", features = ["serde"] }
chrono = { version = "=0.4.45", default-features = false, features = ["std", "clock", "serde"] }
csv = "=1.4.0"
url = "=2.5.8"
anyhow = "=1.0.104"
axum = { version = "=0.8.9", features = ["multipart"] }
clap = { version = "=4.6.7", features = ["derive"] }
env_logger = { version = "=0.11.11", default-features = false }
http = "=1.5.0"
log = "=0.4.35"
polars = { version = "=0.55.2", default-features = false, features = ["csv", "dtype-date", "dtype-datetime", "fmt"] }
reqwest = { version = "=0.12.28", default-features = false, features = ["rustls-tls"] }
serde = { version = "=1.0.229", features = ["derive"] }
serde_json = "=1.0.154"
tokio = { version = "=1.54.1", features = ["full"] }
toml = "=1.1.8"
tower-http = { version = "=0.7.1", features = ["trace"] }
tracing = "=0.1.44"
tracing-subscriber = { version = "=0.3.23", features = ["env-filter", "fmt"] }
walkdir = "=2.5.0"
