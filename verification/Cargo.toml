[package]
name = "midn"
version = "0.1.0"
edition = "2021"
publish = false

[dependencies]
aes = "0.8"
hmac = "0.12"
sha2 = "0.10"
keccak = "0.1"
subtle = "2"
hex = "0.4"
rand = "0.8"
zeroize = "1"
