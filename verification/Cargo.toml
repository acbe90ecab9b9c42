[package]
name = "backend"
version = "0.1.0"
edition = "2021"
publish = false

[dependencies]
anyhow = "=1.0.104"
base64 = "0.22"
serde = { version = "=1.0.229", features = ["derive"] }
serde_json = "=1.0.154"
