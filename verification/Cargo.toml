[package]
name = "kokorobox-native"
version = "0.1.0"
edition = "2021"
publish = false

[dependencies]
anyhow = "=1.0.104"
base64 = "=0.22.1"
ed25519-dalek = { version = "=2.2.0", features = ["pkcs8", "pem", "alloc"] }
getrandom = "=0.3.4"
keyring = "=3.6.3"
libc = "=0.2.191"
serde = { version = "=1.0.229", features = ["derive"] }
serde_json = "=1.0.154"
sha2 = "=0.10.9"
zbus = "=5.19.0"

[dev-dependencies]
serde_json = "=1.0.154"
