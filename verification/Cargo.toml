[package]
name = "noesis_bevy"
version = "0.1.0"
edition = "2021"
publish = false

[dependencies]
bevy = { version = "=0.18.1", default-features = false, features = ["std", "bevy_asset", "bevy_log", "bevy_render", "bevy_core_pipeline"] }
bevy_render = { version = "=0.18.1", default-features = false }
noesis_runtime = { version = "=0.13.0", default-features = false }
wgpu = "=27.0.1"
