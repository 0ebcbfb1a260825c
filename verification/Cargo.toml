[package]
name = "songrec"
version = "0.1.0"
edition = "2021"
publish = false

[dependencies]
base64 = "=0.13.1"
crc32fast = "*"
unicode-normalization = "*"
chfft = "*"
hound = "*"
clap = "*"
serde = { version = "*", features = ["derive"] }
serde_json = "*"
toml = "*"
csv = "*"
