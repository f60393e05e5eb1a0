[package]
name = "spidertaire"
version = "0.1.0"
edition = "2021"
publish = false

[dependencies]
rand = "=0.8.8"
bevy = { version = "=0.7.0", default-features = false, features = ["bevy_winit", "render", "png", "x11"] }
darling = "=0.13.4"
