[package]
name = "aabb_collision"
version = "0.1.0"
edition = "2021"
publish = false

[dependencies]
uuid = { version = "0.8", features = ["v4"] }
bevy = { version = "0.6", default-features = false, features = ["render"] }
bevy_prototype_lyon = "0.4"
