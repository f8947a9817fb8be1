[package]
name = "raytracer"
version = "0.1.0"
edition = "2021"
publish = false

[dependencies]
im = "15"
rand = "0.8"
rayon = "1"
