[package]
name = "b0unds"
version = "0.1.0"
edition = "2021"
publish = false

[dependencies]
anyhow = "=1.0.104"
bytemuck = { version = "=1.25.2", features = ["derive"] }
chrono = "=0.4.45"
egui = "0.20"
fern = { version = "0.6.2", features = ["colored"] }
log = "=0.4.34"
nalgebra-glm = { version = "0.17.0", features = ["convert-bytemuck"] }
wgpu = "0.14"
winit = "0.27"
