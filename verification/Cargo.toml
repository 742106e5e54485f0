[package]
name = "yeetlight"
version = "0.1.0"
edition = "2021"
publish = false

[dependencies]
anyhow = "*"
axum = "*"
clap = { version = "*", features = ["derive"] }
log = "*"
serde = { version = "*", features = ["derive"] }
serde_json = "*"
simple_logger = "*"
tokio = { version = "*", features = ["full"] }
