[package]
name = "raytracer"
version = "0.1.0"
edition = "2021"
publish = false

[dependencies]
glam = "=0.29.3"
eframe = { version = "=0.31.1", default-features = false, features = ["glow", "x11", "default_fonts"] }
