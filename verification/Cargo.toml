[package]
name = "communication"
version = "0.1.0"
edition = "2021"
publish = false

[dependencies]
async-channel = "2"
async-executor = "1"
async-net = "2"
env_logger = "0.11"
futures-lite = "2"
log = "0.4"
rmp-serde = "1"
serde = { version = "1", features = ["derive"] }
thiserror = "1"
