[package]
name = "palmier_pro"
version = "0.1.0"
edition = "2021"
publish = false

[dependencies]
uuid = { version = "=1.29.0", features = ["v4"] }
base64 = "=0.22.1"
serde = { version = "=1.0.229", features = ["derive"] }
serde_json = "=1.0.154"
thiserror = "=2.0.21"
axum = { version = "=0.7.9", default-features = false, features = ["http1", "json", "tokio"] }
tokio = { version = "=1.54.1", features = ["rt-multi-thread", "net"] }
tower-http = { version = "=0.6.11", features = ["cors"] }
tauri = { version = "=2.12.5", default-features = false }
tauri-plugin-fs = { version = "=2.7.1", default-features = false }
