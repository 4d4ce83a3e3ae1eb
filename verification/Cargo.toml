[package]
name = "keyhaven"
version = "0.1.0"
edition = "2021"
publish = false

[dependencies]
argon2 = "0.5"
chacha20poly1305 = "0.10"
rand = "0.8"
zeroize = "1"
uuid = { version = "1", features = ["v4"] }
chrono = "0.4"
serde = { version = "1", features = ["derive"] }
serde_json = "1"
flate2 = "1"
