[package]
name = "duck"
version = "0.1.0"
edition = "2021"
publish = false

[dependencies]
rand = "*"
wgpu = "*"
winit = "0.30"
glam = "*"
bytemuck = { version = "1", features = ["derive"] }
image = { version = "0.25", default-features = false, features = ["png", "jpeg"] }
anyhow = "1"
log = "0.4"
env_logger = "*"
pollster = "*"
