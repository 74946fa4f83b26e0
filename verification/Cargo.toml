[package]
name = "catnip"
version = "0.1.0"
edition = "2021"
publish = false

[dependencies]
float_duration = { version = "0.3", default-features = false }
serde_yaml = "0.8"
