[package]
name = "xy_sign_relay"
version = "0.1.0"
edition = "2021"
publish = false

[dependencies]
rsa = "=0.9.10"
sha2 = "=0.10.9"
base64 = "=0.22.1"
rand = "=0.8.8"
axum = "=0.7.9"
tokio = { version = "=1.54.1", features = ["full"] }
tower-http = { version = "=0.5.2", features = ["cors"] }
tracing = "=0.1.44"
tracing-subscriber = "=0.3.23"
rusqlite = { version = "=0.31.0", features = ["bundled"] }
chrono = "=0.4.45"
dotenvy = "=0.15.7"
serde = { version = "=1.0.229", features = ["derive"] }
serde_json = "=1.0.154"
tera = "=1.20.1"
rust-embed = { version = "=8.13.0", features = ["interpolate-folder-path"] }
