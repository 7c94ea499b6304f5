[package]
name = "dino_cli"
version = "0.1.0"
edition = "2021"
publish = false

[dependencies]
anyhow = "=1.0.104"
clap = { version = "=4.6.7", features = ["derive"] }
hf-hub = { version = "=0.4.3", default-features = false, features = ["ureq", "rustls-tls"] }
image = { version = "=0.25.10", default-features = false, features = ["jpeg", "png", "webp", "bmp", "tiff"] }
openvino = { version = "=0.11.1", features = ["runtime-linking"] }
openvino-sys = { version = "=0.11.1", features = ["runtime-linking"] }
serde = { version = "=1.0.229", features = ["derive"] }
serde_json = "=1.0.154"
walkdir = "=2.5.0"
