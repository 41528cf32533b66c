[package]
name = "trade"
version = "0.1.0"
edition = "2021"
publish = false

[dependencies]
argon2 = "*"
axum = "*"
jsonwebtoken = "*"
serde = { version = "*", features = ["derive"] }
serde_json = "*"
tokio = { version = "*", features = ["full"] }
