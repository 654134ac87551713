[package]
name = "hoya"
version = "0.1.0"
edition = "2021"
publish = false

[dependencies]
anyhow = "=1.0.104"
axum = "=0.8.9"
bytes = "=1.12.1"
chrono = "=0.4.45"
reqwest = { version = "=0.13.5", default-features = false }
rquickjs = "=0.14.0"
serde = { version = "=1.0.229", features = ["derive"] }
serde_json = "=1.0.151"
tokio = { version = "=1.53.2", features = ["full"] }
wasmtime = "=48.0.5"
