[package]
name = "onionbell"
version = "0.1.0"
edition = "2021"
publish = false

[dependencies]
regex = "*"
serde = { version = "*", features = ["derive"] }
serde_json = "*"
toml = "*"
rodio = "*"
log = "*"
env_logger = "*"
thiserror = "*"
