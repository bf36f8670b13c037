[package]
name = "contextpad"
version = "0.1.0"
edition = "2021"
publish = false

[dependencies]
keyring = { version = "=3.6.3", default-features = false }
serde = { version = "=1.0.229", features = ["derive"] }
