[package]
name = "homelab_backend"
version = "0.1.0"
edition = "2021"
publish = false

[dependencies]
sha2 = "*"
rand = "*"
axum = { version = "*", features = ["ws"] }
tokio = { version = "*", features = ["full"] }
mongodb = "*"
serde = { version = "*", features = ["derive"] }
serde_json = "*"
jsonwebtoken = "*"
futures = "*"
