[package]
name = "rust_crypto"
version = "0.1.0"
edition = "2021"
publish = false

[dependencies]
aes-gcm = "*"
base64 = "*"
hmac = "*"
ring = "*"
sha2 = "*"
