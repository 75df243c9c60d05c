[package]
name = "terrarium"
version = "0.1.0"
edition = "2021"
publish = false

[dependencies]
anyhow = "1"
bytemuck = { version = "=1.25.2", features = ["derive"] }
glam = { version = "=0.30.10", features = ["bytemuck"] }
openxr = "0.19"
wgpu = "=25.0.2"
winit = "=0.30.13"
