[package]
name = "nbody_sim"
version = "0.1.0"
edition = "2021"
publish = false

[dependencies]
bevy = { version = "0.14", default-features = false, features = ["bevy_asset", "bevy_color", "bevy_state"] }
bevy_asset_loader = "0.21"
serde = { version = "1", features = ["derive"] }
thiserror = "1"
