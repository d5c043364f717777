[package]
name = "onitama"
version = "0.1.0"
edition = "2021"
publish = false

[dependencies]
tinyrand = "*"
tinyrand-std = "*"
strum = { version = "*", features = ["derive"] }
log = "*"
env_logger = "*"
