[package]
name = "gcode_viewer"
version = "0.1.0"
edition = "2021"
publish = false

[dependencies]
winit = "=0.30.13"
wgpu = "=25.0.2"
imgui = "=0.12.0"
imgui-wgpu = "=0.25.0"
imgui-winit-support = "=0.13.0"
glam = "0.30"
bytemuck = { version = "=1.25.2", features = ["derive"] }
pollster = "=0.4.0"
rfd = { version = "=0.15.4", default-features = false, features = ["xdg-portal", "tokio"] }
