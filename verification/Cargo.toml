[package]
name = "diag_server"
version = "0.1.0"
edition = "2021"
publish = false

[dependencies]
actix-web = "4"
chrono = "0.4"
env_logger = "0.11"

[dev-dependencies]
serde_json = "1"
