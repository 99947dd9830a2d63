[package]
name = "render_front"
version = "0.1.0"
edition = "2021"
publish = false

[dependencies]
bytemuck = { version = "=1.25.2", features = ["derive"] }
cgmath = "=0.18.0"
env_logger = { version = "=0.10.2", default-features = false }
image = { version = "=0.24.9", default-features = false, features = ["jpeg", "png"] }
wgpu = { version = "0.19", default-features = false, features = ["wgsl"] }
