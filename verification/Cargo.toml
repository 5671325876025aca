[package]
name = "brainroot"
version = "0.1.0"
edition = "2021"
publish = false

[dependencies]
serde = { version = "1", features = ["derive"] }
serde_json = "1"
url = "2"
uuid = { version = "1", features = ["v4"] }
keyring = { version = "3", features = ["async-secret-service", "async-io", "crypto-rust"] }
ureq = "3"
libc = "0.2"
