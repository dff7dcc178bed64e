[package]
name = "cinder"
version = "0.1.0"
edition = "2021"
publish = false

[dependencies]
winit = "0.30"
softbuffer = "0.4"
image = { version = "0.25", default-features = false, features = ["png"] }
