[package]
name = "engine"
version = "0.1.0"
edition = "2021"
publish = false

[dependencies]
sha2 = "=0.10.9"
serde = { version = "=1.0.229", features = ["derive"] }
serde_json = "=1.0.154"
fastnbt = "=2.6.3"
flate2 = "=1.1.10"
base64 = "=0.22.1"
zip = { version = "2", default-features = false, features = ["deflate"] }
tar = "0.4"
