[package]
name = "screensnap"
version = "0.1.0"
edition = "2021"
publish = false

[dependencies]
anyhow = "*"
base64 = "*"
chrono = "*"
clap = { version = "*", features = ["derive"] }
env_logger = "*"
image = { version = "*", default-features = false, features = ["png"] }
log = "*"
reqwest = { version = "*", default-features = false, features = ["blocking"] }
screenshots = "*"
