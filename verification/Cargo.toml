[package]
name = "rfb_display"
version = "0.1.0"
edition = "2021"
publish = false

[dependencies]
anyhow = "1"
byteorder-lite = "0.1"
clap = { version = "4", features = ["derive"] }
env_logger = "0.11"
flate2 = "1"
image = { version = "0.25", default-features = false, features = ["png", "jpeg", "bmp", "gif"] }
log = "0.4"
tokio = { version = "1", features = ["rt", "net", "io-util", "macros"] }
