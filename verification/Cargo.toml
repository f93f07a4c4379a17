[package]
name = "scene_core"
version = "0.1.0"
edition = "2021"
publish = false

[dependencies]
bytemuck = { version = "*", features = ["derive"] }
cgmath = "*"
serde = { version = "*", features = ["derive"] }
serde_json = "*"
tobj = "*"
web-time = "*"
