[package]
name = "stm32-emulator"
version = "0.1.0"
edition = "2021"
publish = false

[dependencies]
serde = { version = "1", features = ["derive"] }
serde_yaml = "0.9"
anyhow = "1"
log = "0.4"
svd-parser = "0.14"
unicorn-engine = "2"
capstone = "0.12"
tempfile = "3"
