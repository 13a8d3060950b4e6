[package]
name = "shimmy"
version = "0.1.0"
edition = "2021"
publish = false

[dependencies]
axum = { version = "=0.7.9", default-features = false }
base64 = "=0.22.1"
chrono = { version = "=0.4.45", default-features = false, features = ["clock", "std", "serde"] }
dirs = "=5.0.1"
image = { version = "=0.24.9", default-features = false, features = ["jpeg", "png", "gif", "bmp", "webp"] }
reqwest = { version = "=0.12.28", default-features = false, features = ["json", "rustls-tls"] }
serde = { version = "=1.0.229", features = ["derive"] }
serde_json = { version = "=1.0.154", features = ["float_roundtrip"] }
sysinfo = "=0.30.13"
thiserror = "=1.0.69"
tokio = { version = "=1.54.1", features = ["fs", "sync", "time", "rt", "macros"] }
