[package]
name = "chex_explorer"
version = "0.1.0"
edition = "2021"
publish = false

[dependencies]
regex = "=1.13.1"
mime_guess = "=2.0.5"
uuid = { version = "=1.29.0", features = ["v4"] }
chrono = "=0.4.45"
walkdir = "=2.5.0"
notify = "=6.1.1"
dirs = "=5.0.1"
anyhow = "=1.0.104"
log = "=0.4.34"
trash = "=5.2.9"
open = "=5.4.5"
zip = "=9.0.5"
tar = "=0.4.46"
serde = { version = "=1.0.229", features = ["derive"] }
serde_json = "=1.0.154"
image = { version = "0.25", default-features = false, features = ["png", "jpeg", "gif", "bmp"] }
env_logger = "0.11"
