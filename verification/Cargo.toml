[package]
name = "gdvoxel"
version = "0.1.0"
edition = "2021"
publish = false

[dependencies]
priority-queue = "*"
moka = { version = "*", features = ["sync"] }
ndshape = "*"
fast-surface-nets = "*"
noise = "*"
splines = "*"
tokio = { version = "1", features = ["rt-multi-thread"] }
wgpu = "0.17"
bytemuck = "1"
futures-intrusive = "0.5"
godot = "*"
