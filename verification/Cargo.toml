[package]
name = "wickbot"
version = "0.1.0"
edition = "2021"
publish = false

[dependencies]
bytes = "1"
chrono = "0.4"
ctrlc = "3"
futures = "0.3"
hyper = { version = "0.14", features = ["client", "http1", "http2", "tcp"] }
hyper-tls = "0.5"
serde = { version = "1", features = ["derive"] }
serde_json = "1"
serenity = { version = "0.10", default-features = false, features = ["builder", "cache", "client", "gateway", "http", "model", "utils", "rustls_backend"] }
tokio = { version = "1", features = ["full"] }
tokio-postgres = "0.7"
