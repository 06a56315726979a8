[package]
name = "dexios"
version = "0.1.0"
edition = "2021"
publish = false

[dependencies]
aes-gcm = "*"
chacha20poly1305 = "*"
ring = "*"
rand = "0.8"
globset = "*"
zip = { version = "*", default-features = false, features = ["bzip2"] }
blake3 = "*"
base64 = "*"
anyhow = "*"
clap = "*"
rpassword = "*"
question = "*"
