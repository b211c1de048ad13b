[package]
name = "chakchat_core"
version = "0.1.0"
edition = "2021"
publish = false

[dependencies]
aes-gcm = "0.10"
chacha20poly1305 = "0.10"
chrono = "0.4"
ed25519-dalek = "2"
hkdf = "0.12"
hmac = "0.12"
pqcrypto-kyber = "0.8"
pqcrypto-traits = "0.3"
rand = "0.8"
scrypt = "0.11"
serde = { version = "1", features = ["derive"] }
sha2 = "0.10"
tokio = { version = "1", features = ["sync"] }
x25519-dalek = { version = "2", features = ["static_secrets"] }
