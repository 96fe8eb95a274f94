[package]
name = "geomk"
version = "0.1.0"
edition = "2021"
publish = false

[dependencies]
axum = "=0.7.9"
hmac = "0.12"
clap = { version = "=4.6.7", features = ["derive"] }
reqwest = { version = "=0.12.28", default-features = false, features = ["rustls-tls"] }
serde = { version = "=1.0.229", features = ["derive"] }
serde_json = "=1.0.154"
sha2 = "0.10"
sqlx = { version = "=0.8.6", default-features = false, features = ["sqlite", "runtime-tokio", "derive", "migrate"] }
thiserror = "=1.0.69"
tokio = { version = "=1.54.1", features = ["full"] }
tower-cookies = "=0.10.0"
tower-http = { version = "=0.5.2", features = ["cors"] }
