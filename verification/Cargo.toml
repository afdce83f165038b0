[package]
name = "idlemail"
version = "0.1.0"
edition = "2021"
publish = false

[dependencies]
anyhow = "*"
async-imap = "*"
async-native-tls = "*"
async-std = "*"
futures = "*"
lettre = "*"
log = "*"
pretty_env_logger = "*"
serde = { version = "*", features = ["derive"] }
serde_json = "*"
signal = "*"
