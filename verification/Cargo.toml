[package]
name = "dockify"
version = "0.1.0"
edition = "2021"
publish = false

[dependencies]
base64 = "*"
rand = "*"
axum = "*"
tokio = { version = "*", features = ["full"] }
tower = { version = "*", features = ["buffer", "limit", "util"] }
rusqlite = { version = "*", features = ["bundled"] }
bollard = "*"
serde = { version = "*", features = ["derive"] }
serde_json = "*"
jsonwebtoken = "*"
argon2 = "*"
chrono = "*"
dotenvy = "*"
lettre = { version = "*", default-features = false, features = ["smtp-transport", "builder"] }
