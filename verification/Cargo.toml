[package]
name = "gpu_scene"
version = "0.1.0"
edition = "2021"
publish = false

[dependencies]
adi_gpu_base = "*"
asi_opengl = "*"
