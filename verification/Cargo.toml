[package]
name = "project_butler"
version = "0.1.0"
edition = "2021"
publish = false

[dependencies]
anyhow = "=1.0.104"
base64 = "=0.22.1"
dioxus = "=0.7.10"
rfd = { version = "=0.15.4", default-features = false, features = ["xdg-portal", "tokio"] }
serde = { version = "=1.0.229", features = ["derive"] }
serde_json = "=1.0.154"
tokio = { version = "=1.54.1", features = ["full"] }
uuid = { version = "=1.29.0", features = ["v4"] }
