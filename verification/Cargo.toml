[package]
name = "valhalla"
version = "0.1.0"
edition = "2021"
publish = false

[dependencies]
anyhow = "1"
env_logger = "*"
log = "0.4"
parking_lot = "*"
rquickjs = "*"
serde = { version = "1", features = ["derive"] }
serde_json = "1"
tungstenite = "0.23"
ureq = "2"
