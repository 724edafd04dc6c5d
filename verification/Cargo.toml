[package]
name = "cncore"
version = "0.1.0"
edition = "2021"
publish = false

[dependencies]
base64 = "=0.22.1"
chrono = { version = "=0.4.45", default-features = false, features = ["clock", "serde", "std"] }
hmac = "=0.12.1"
once_cell = "=1.21.4"
rand = "=0.8.8"
serde = { version = "=1.0.229", features = ["derive"] }
serde_json = "=1.0.154"
sha2 = "=0.10.9"
subtle = "=2.6.1"
thiserror = "=1.0.69"
uuid = { version = "=1.29.0", features = ["serde", "v4"] }
