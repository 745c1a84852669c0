[package]
name = "simple_request"
version = "0.1.0"
edition = "2021"
publish = false

[dependencies]
aes-gcm = "=0.10.3"
argon2 = { version = "=0.5.3", features = ["std"] }
base64 = "=0.22.1"
chrono = "=0.4.45"
dirs = "=5.0.1"
keyring = { version = "=3.6.3", features = ["apple-native", "windows-native", "linux-native"] }
rand = "=0.8.8"
reqwest = { version = "=0.12.28", default-features = false, features = ["rustls-tls"] }
serde = { version = "=1.0.229", features = ["derive"] }
serde_json = "=1.0.154"
