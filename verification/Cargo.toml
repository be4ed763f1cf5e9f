[package]
name = "web_apps"
version = "0.1.0"
edition = "2021"
publish = false

[dependencies]
anyhow = "=1.0.104"
fs_extra = "=1.3.0"
rand = "=0.8.8"
semver = "=1.0.28"
serde = { version = "=1.0.229", features = ["derive"] }
serde_yaml = "0.9"
tracing = "=0.1.44"
url = "=2.5.8"

[dev-dependencies]
freedesktop-desktop-entry = "=0.8.4"
regex = "=1.13.1"
