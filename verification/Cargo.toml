[package]
name = "mandel_tiles"
version = "0.1.0"
edition = "2021"
publish = false

[dependencies]
anyhow = "1"
bytemuck = { version = "1", features = ["derive"] }
num-complex = "0.4"
pollster = "0.3"
rayon = "1"
tokio = { version = "1", features = ["rt-multi-thread"] }
wgpu = "0.20"
winit = "0.30"
