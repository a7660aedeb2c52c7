[package]
name = "bevy_procedural_grass"
version = "0.3.0"
edition = "2021"
publish = false

[dependencies]
bevy = { version = "=0.18.1", default-features = false, features = ["std", "async_executor", "multi_threaded", "bevy_pbr"] }
bytemuck = { version = "=1.25.2", features = ["derive"] }
rand = "=0.10.3"
