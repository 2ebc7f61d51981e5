[package]
name = "border-wars"
version = "0.1.0"
edition = "2021"
publish = false

[dependencies]
rand = "=0.8.8"
bincode = "=1.3.3"
serde = { version = "=1.0.229", features = ["derive"] }
bevy = { version = "=0.10.1", default-features = false, features = ["bevy_asset", "bevy_render", "bevy_core_pipeline", "bevy_sprite", "bevy_text", "bevy_ui", "bevy_winit", "png", "x11"] }
