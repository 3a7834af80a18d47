[package]
name = "permadeath_launcher"
version = "0.1.0"
edition = "2021"
publish = false

[dependencies]
bcrypt = "*"
chrono = "*"
dirs-next = "*"
dotenvy = "*"
keyring = "*"
log = "*"
serde = { version = "*", features = ["derive"] }
serde_json = "*"
simplelog = "*"
sqlx = { version = "*", default-features = false, features = ["runtime-tokio", "mysql", "chrono"] }
tokio = { version = "*", features = ["rt-multi-thread", "macros"] }
uuid = { version = "*", features = ["v4"] }
