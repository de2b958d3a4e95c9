[package]
name = "gltf_import"
version = "0.1.0"
edition = "2021"
publish = false

[dependencies]
base64 = "0.13"
image = { version = "0.25", default-features = false, features = ["jpeg", "png", "webp"] }
url = "2"
