[package]
name = "backupfs"
version = "0.1.0"
edition = "2021"
publish = false

[dependencies]
rust-crypto = "0.2"
zip = { version = "0.6", default-features = false, features = ["deflate"] }
walkdir = "2"
chrono = "0.4"
time = "0.1"
filedb = "*"
serde = { version = "1", features = ["derive"] }
serde_json = "1"
clap = "2"
ctrlc = "3"
log = "0.4"
env_logger = "*"
