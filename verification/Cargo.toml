[package]
name = "fern"
version = "0.1.0"
edition = "2021"
publish = false

[dependencies]
crossbeam-queue = "=0.3.14"
smallvec = "=1.16.4"
anyhow = "=1.0.104"
thiserror = "=2.0.21"
chrono = "=0.4.45"
sdl3 = { version = "=0.22.0", features = ["raw-window-handle", "ash"] }
ash = "=0.38.0"
wgpu = "=30.0.1"
pollster = "=1.0.1"
glam = { version = "=0.34.2", features = ["bytemuck"] }
bytemuck = { version = "=1.25.2", features = ["derive"] }
tobj = "=4.0.5"
