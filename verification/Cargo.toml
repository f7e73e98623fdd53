[package]
name = "orrery"
version = "0.1.0"
edition = "2021"
publish = false

[dependencies]
base64ct = { version = "1", features = ["alloc"] }
chrono = "0.4"
hmac = "0.12"
sha2 = "0.10"
