[package]
name = "image_worker"
version = "0.1.0"
edition = "2021"
publish = false

[dependencies]
image = { version = "=0.25.9", default-features = false, features = ["png", "jpeg", "gif", "bmp", "tiff", "webp"] }
image_hasher = "=3.0.0"
kamadak-exif = "=0.6.1"
arrow-array = "=60.1.0"
arrow-buffer = "=60.1.0"
arrow-schema = "=60.1.0"
env_logger = "=0.11.11"
