[package]
name = "info_display"
version = "0.1.0"
edition = "2021"
publish = false

[dependencies]
crc32fast = "*"
crossbeam-channel = "*"
image = { version = "*", default-features = false, features = ["webp"] }
serde = { version = "*", features = ["derive"] }
serde_json = "*"
serialport = { version = "*", default-features = false }
signal-hook = "*"
