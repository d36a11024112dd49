[package]
name = "pathtracer"
version = "0.1.0"
edition = "2021"
publish = false

[dependencies]
rand = "0.8"
nalgebra = { version = "0.33", default-features = false, features = ["std"] }
image = { version = "0.25", default-features = false, features = ["png"] }
