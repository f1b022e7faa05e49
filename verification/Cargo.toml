[package]
name = "touchhle"
version = "0.1.0"
edition = "2021"
publish = false

[dependencies]
md5 = "0.7"
sha1 = "0.10"
sha2 = "0.10"
hmac = "0.12"
pbkdf2 = { version = "0.12", features = ["hmac"] }
aes = "0.7"
block-modes = "0.8"
plist = "1"
