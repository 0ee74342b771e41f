[package]
name = "rustpal"
version = "0.1.0"
edition = "2021"
publish = false

[dependencies]
cpal = "=0.18.2"
pixels = "=0.17.2"
png = "=0.18.1"
pollster = "=0.4.0"
web-time = "=1.1.0"
wgpu = "=29.0.4"
winit = "=0.30.13"
