[package]
name = "session_fragments"
version = "0.1.0"
edition = "2021"
publish = false

[dependencies]
uuid = { version = "=1.27.0", features = ["v4"] }
actix-web = "4"
actix-files = "0.6"
log = "0.4"
env_logger = "*"
serde = { version = "1", features = ["derive"] }
