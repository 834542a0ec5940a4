[package]
name = "orrery"
version = "0.1.0"
edition = "2021"
publish = false

[dependencies]
image = { version = "0.25", default-features = false, features = ["png"] }
cgmath = "0.18"
bytemuck = { version = "1", features = ["derive"] }
pollster = "0.4"
egui = "*"
egui-wgpu = "*"
egui-winit = { version = "*", default-features = false, features = ["wayland", "x11"] }
egui_extras = { version = "*", default-features = false }
