[package]
name = "tezzera"
version = "0.1.0"
edition = "2021"
publish = false

[dependencies]
tiny-skia = "0.11"
winit = "0.30"
softbuffer = "0.4"
wgpu = "24"
pollster = "0.4"
log = "0.4"
env_logger = "0.11"
