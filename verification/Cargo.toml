[package]
name = "unimarkup"
version = "0.1.0"
edition = "2021"
publish = false

[dependencies]
unicode-segmentation = "=1.13.3"
syntect = { version = "=5.3.0", default-features = false, features = ["default-fancy"] }
serde_json = "=1.0.154"
