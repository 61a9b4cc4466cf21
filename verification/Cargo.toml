[package]
name = "bevy_asset_loader"
version = "0.1.0"
edition = "2021"
publish = false

[dependencies]
bevy = { version = "0.10", default-features = false, features = ["bevy_asset"] }
bevy_common_assets = { version = "0.6", default-features = false, features = ["ron"] }
iyes_progress = { version = "0.8", default-features = false }
