[package]
name = "bitte_pixels"
version = "0.1.0"
edition = "2021"
publish = false

[dependencies]
bytemuck = { version = "1", features = ["derive"] }
log = "0.4"
raw-window-handle = "0.6"
wgpu = { version = "0.19", default-features = false, features = ["wgsl"] }
