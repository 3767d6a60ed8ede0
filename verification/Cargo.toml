[package]
name = "render3d"
version = "0.1.0"
edition = "2021"
publish = false

[dependencies]
colorsys = "0.6"
ggez = { version = "0.9", default-features = false }
