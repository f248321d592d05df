[package]
name = "pin_envelope"
version = "0.1.0"
edition = "2021"
publish = false

[dependencies]
aes-gcm = "0.9"
sha2 = "*"
blake3 = "*"
