[package]
name = "pdv_core"
version = "0.1.0"
edition = "2021"
publish = false

[dependencies]
argon2 = "*"
jsonwebtoken = "*"
chrono = "*"
uuid = { version = "*", features = ["v4"] }
serde = { version = "*", features = ["derive"] }
axum = "*"
tokio = { version = "*", features = ["rt-multi-thread", "macros", "net"] }
tower-http = { version = "*", features = ["cors"] }
dotenvy = "*"
