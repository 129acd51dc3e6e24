[package]
name = "kyc_backend"
version = "0.1.0"
edition = "2021"
publish = false

[dependencies]
axum = "0.8"
tower = "0.5"
serde = { version = "1", features = ["derive"] }
serde_json = "1"
serde_yaml = "0.9"
utoipa = "5"
chrono = "0.4"
cuid = "1"
hmac = "0.12"
sha2 = "0.10"
base64 = "0.22"
metrics-exporter-prometheus = { version = "0.16", default-features = false }
