[package]
name = "raptor"
version = "0.1.0"
edition = "2021"
publish = false

[dependencies]
anyhow = "1"
base32 = "0.5"
clap = { version = "4", features = ["derive"] }
dirs = "5"
keyring = "2"
totp-rs = "5"
