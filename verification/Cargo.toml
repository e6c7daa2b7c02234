[package]
name = "apartments"
version = "0.1.0"
edition = "2021"
publish = false

[dependencies]
bevy = { version = "=0.7.0", default-features = false, features = ["bevy_winit", "render", "png", "x11"] }
bevy_mod_picking = "=0.6.1"
darling = "=0.13.4"
