[package]
name = "motion_sim"
version = "0.1.0"
edition = "2021"
publish = false

[dependencies]
bevy = { version = "0.15", default-features = false, features = ["bevy_pbr", "bevy_winit", "tonemapping_luts", "x11"] }
