[package]
name = "ocr_core"
version = "0.1.0"
edition = "2021"
publish = false

[dependencies]
anyhow = "=1.0.104"
image = { version = "=0.25.10", default-features = false, features = ["png", "jpeg"] }
ndarray = "=0.17.2"
ort = { version = "=2.0.0-rc.13", default-features = false, features = ["std", "ndarray", "alternative-backend"] }
