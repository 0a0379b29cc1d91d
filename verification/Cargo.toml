[package]
name = "docker_run"
version = "0.1.0"
edition = "2021"
publish = false

[dependencies]
httparse = "1"
serde_json = "1"
serde = { version = "1", features = ["derive"] }
tiny_http = "0.12"
log = "0.4"
env_logger = "0.10"
iowrap = "0.2"
