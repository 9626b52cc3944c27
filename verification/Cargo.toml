[package]
name = "snappea"
version = "0.1.0"
edition = "2021"
publish = false

[dependencies]
png = "=0.17.16"
url = "=2.5.8"
serde = { version = "=1.0.229", features = ["derive"] }
serde_json = "=1.0.154"
drm-fourcc = "=2.2.0"
chrono = "=0.4.45"
anyhow = "=1.0.104"
log = "=0.4.35"
dirs = "=5.0.1"
tempfile = "=3.27.0"
zbus = "5"
env_logger = "0.11"
