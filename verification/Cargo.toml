[package]
name = "emit_hub"
version = "0.1.0"
edition = "2021"
publish = false

[dependencies]
redb = "*"
uuid = { version = "*", features = ["v4"] }
chrono = "*"
actix-web = "*"
actix-ws = "*"
tokio = { version = "*", features = ["sync", "macros", "rt-multi-thread"] }
futures-util = "*"
serde = { version = "*", features = ["derive"] }
serde_json = "*"
anyhow = "*"
env_logger = "*"
log = "*"
