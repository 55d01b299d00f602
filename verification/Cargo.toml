[package]
name = "rasterizer"
version = "0.1.0"
edition = "2021"
publish = false

[dependencies]
rand = "0.8"
minifb = "0.27"
image = { version = "0.25", default-features = false, features = ["png", "jpeg"] }
crossterm = "0.28"
