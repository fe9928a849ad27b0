[package]
name = "sonate"
version = "0.1.0"
edition = "2021"
publish = false

[dependencies]
cssparser = "=0.38.0"
anyhow = "=1.0.104"
serde = { version = "=1.0.229", features = ["derive"] }
ipc-channel = "=0.23.1"
html_parser = "=0.7.0"
libloading = "0.8"
