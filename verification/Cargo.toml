[package]
name = "entropy_core"
version = "0.1.0"
edition = "2021"
publish = false

[dependencies]
aes-gcm = "0.10"
base64 = "0.22"
curve25519-dalek = "4"
ed25519-dalek = "2"
hex = "0.4"
hkdf = "0.12"
hmac = "0.12"
pqcrypto-kyber = "*"
pqcrypto-traits = "*"
rand = "0.8"
rusqlite = { version = "*", features = ["bundled"] }
serde = { version = "1", features = ["derive"] }
serde_json = "1"
sha2 = "0.10"
x25519-dalek = { version = "2", features = ["static_secrets"] }
