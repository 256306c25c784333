[package]
name = "emarket"
version = "0.1.0"
edition = "2021"
publish = false

[dependencies]
chrono = "=0.4.45"
chrono-tz = "=0.10.4"
rand = "=0.8.8"
tokio = { version = "=1.53.2", features = ["full"] }
tokio-util = "=0.7.19"
axum = "=0.8.9"
tower-http = { version = "=0.7.1", features = ["cors", "timeout"] }
clap = { version = "=4.6.7", features = ["derive", "env"] }
redis = "=0.25.5"
redis_ts = "=0.5.4"
reqwest = "=0.13.5"
reqwest-middleware = "=0.5.2"
reqwest-retry = "=0.9.1"
serde = { version = "=1.0.229", features = ["derive"] }
