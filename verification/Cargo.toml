[package]
name = "mimi"
version = "0.1.0"
edition = "2021"
publish = false

[dependencies]
unicode-width = "0.2"
libc = "0.2"
serde = { version = "1", features = ["derive"] }
serde_json = "1"
winit = "0.30"
wgpu = "24"
fontdue = "0.9"
arboard = { version = "3", default-features = false }
bytemuck = { version = "1", features = ["derive"] }
pollster = "0.4"
