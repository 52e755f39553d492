[package]
name = "zombie_life"
version = "0.1.0"
edition = "2021"
publish = false

[dependencies]
bevy = { version = "0.15", default-features = false, features = ["bevy_asset", "bevy_color", "bevy_core_pipeline", "bevy_render", "bevy_sprite", "bevy_window", "bevy_winit", "multi_threaded", "x11"] }
bevy_life = "=0.11.0"
rand = "=0.8.8"
