[package]
name = "shitftp"
version = "0.1.0"
edition = "2021"
publish = false

[dependencies]
blake3 = { version = "1", default-features = false, features = ["pure"] }
hex = "0.4"
log = "0.4"
env_logger = "0.11"
clap = { version = "4", features = ["derive"] }
