[package]
name = "game_of_life"
version = "0.1.0"
edition = "2021"
publish = false

[dependencies]
winit = "0.30"
wgpu = "22"
egui = "0.29"
egui-wgpu = "0.29"
egui-winit = { version = "0.29", default-features = false, features = ["links", "wayland", "x11"] }
egui_plot = "0.29"
image = { version = "0.25", default-features = false, features = ["png"] }
pollster = "0.3"
web-time = "1"
env_logger = "0.11"
log = "0.4"
