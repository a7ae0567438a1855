[package]
name = "collector_core"
version = "0.1.0"
edition = "2021"
publish = false

[dependencies]
crc32fast = "*"
uuid = { version = "*", features = ["v4"] }
tokio = { version = "*", features = ["full"] }
axum = "*"
sqlx = { version = "*", default-features = false, features = ["sqlite", "runtime-tokio"] }
serde = { version = "*", features = ["derive"] }
sysinfo = "*"
dotenv = "*"
