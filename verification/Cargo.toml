[package]
name = "carapace"
version = "0.1.0"
edition = "2021"
publish = false

[dependencies]
aes-gcm = "0.10"
sha256 = "1"
hex = "0.4"
base64 = "0.22"
rsa = { version = "0.9", features = ["sha2", "serde"] }
rand_core = { version = "0.6", features = ["getrandom"] }
uuid = { version = "1", features = ["v4"] }
sled = "0.34"
serde = { version = "1", features = ["derive"] }
serde_json = "1"

[dev-dependencies]
async-std = "1"
