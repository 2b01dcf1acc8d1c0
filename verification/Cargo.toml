[package]
name = "text_editor"
version = "0.1.0"
edition = "2021"
publish = false

[dependencies]
bytemuck = { version = "*", features = ["derive"] }
glyphon = "*"
pollster = "*"
rfd = "*"
wgpu = "*"
winit = "*"
