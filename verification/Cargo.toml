[package]
name = "aegis_vault"
version = "2.0.0"
edition = "2021"
publish = false

[dependencies]
aes-gcm = { version = "0.10", features = ["stream"] }
argon2 = "0.5"
iced = { version = "0.10", default-features = false, features = ["tokio"] }
pbkdf2 = { version = "0.12", features = ["hmac"] }
rand = "0.8"
secrecy = "0.8"
sha2 = "0.10"
tokio = { version = "1", features = ["fs", "io-util", "rt", "rt-multi-thread", "sync"] }
zeroize = { version = "1", features = ["derive"] }
