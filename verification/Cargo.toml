[package]
name = "wave_rs"
version = "0.1.0"
edition = "2021"
publish = false

[dependencies]
heapless = "0.8"

[dev-dependencies]
usbd-human-interface-device = "*"
