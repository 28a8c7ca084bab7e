[package]
name = "glx"
version = "0.1.0"
edition = "2021"
publish = false

[dependencies]
csv = "=1.4.0"
env_logger = "=0.11.11"
euclid = "=0.22.14"
geo-types = "=0.7.20"
log = "=0.4.34"
lyon = "=1.0.19"
palette = "=0.7.7"
rayon = "=1.12.0"
shaderc = "=0.10.1"
wgpu = { version = "=30.0.1", features = ["spirv"] }
winit = "=0.30.13"
