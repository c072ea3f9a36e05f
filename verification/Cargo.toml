[package]
name = "dial_a_schedule"
version = "0.1.0"
edition = "2021"
publish = false

[dependencies]
anyhow = "*"
axum = "*"
chrono = "*"
clap = { version = "*", features = ["derive", "env"] }
metrics = "*"
metrics-exporter-prometheus = "*"
reqwest = { version = "*", default-features = false, features = ["rustls-tls", "json"] }
serde = { version = "*", features = ["derive"] }
tokio = { version = "*", features = ["full"] }
tracing = "*"
tracing-subscriber = "*"
url = "*"
