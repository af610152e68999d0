[package]
name = "simple_log_formatter"
version = "0.1.0"
edition = "2021"
publish = false

[dependencies]
log = "*"
env_logger = "*"

[dev-dependencies]
serde_json = "*"
