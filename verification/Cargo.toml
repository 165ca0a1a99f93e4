[package]
name = "stripchat_recorder"
version = "0.1.0"
edition = "2021"
publish = false

[dependencies]
regex = "=1.13.1"
base64 = "=0.23.1"
sha2 = "=0.11.1"
rand = "=0.10.3"
serde = { version = "=1.0.229", features = ["derive"] }
serde_json = "=1.0.154"
chrono = "=0.4.45"
parking_lot = "=0.13.0"
argon2 = "=0.6.0"
dirs = "=7.0.0"
sysinfo = "=0.40.1"
tokio = { version = "=1.54.1", features = ["full"] }
axum = "=0.8.9"
reqwest = { version = "=0.12.28", default-features = false, features = ["json", "rustls-tls"] }
futures-util = "=0.3.34"
tower-http = { version = "=0.6.11", features = ["cors"] }
