[package]
name = "bevy_line_boil"
version = "0.1.0"
edition = "2021"
publish = false

[dependencies]
bevy = { version = "0.17", default-features = false, features = ["std", "async_executor", "bevy_asset", "bevy_color", "bevy_render", "bevy_core_pipeline", "bevy_pbr"] }
