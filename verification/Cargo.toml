[package]
name = "render_core"
version = "0.1.0"
edition = "2021"
publish = false

[dependencies]
ash = "0.37"
ash-window = "0.12"
bytemuck = "1"
glam = "0.24"
gpu-allocator = { version = "0.25", default-features = false, features = ["vulkan"] }
raw-window-handle = "0.5"
winit = { version = "0.29", features = ["rwh_05"] }
