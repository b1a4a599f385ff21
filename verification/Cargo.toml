[package]
name = "scene_core"
version = "0.1.0"
edition = "2021"
publish = false

[dependencies]
cgmath = "0.17"
image = "0.21"
rand = "0.6"
time = "0.1"
vulkano = "0.11"
vulkano-shaders = "0.11"
vulkano-win = "0.11"
winit = "0.18"
