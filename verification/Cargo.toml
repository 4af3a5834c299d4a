[package]
name = "wgpu_renderer"
version = "0.1.0"
edition = "2021"
publish = false

[dependencies]
anyhow = "1"
bytemuck = { version = "1", features = ["derive"] }
env_logger = "0.11"
fontdue = "0.9"
glam = "*"
image = { version = "0.25", default-features = false, features = ["png"] }
pollster = "0.4"
rand = "0.8"
rand_distr = "0.4"
rayon = "1"
tokio = { version = "1", features = ["rt-multi-thread", "macros", "time"] }
wgpu = "*"
winit = "0.30"
