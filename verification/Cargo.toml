[package]
name = "vpxtool_gui"
version = "0.1.0"
edition = "2021"
publish = false

[dependencies]
bevy = { version = "=0.19.1", default-features = false, features = ["bevy_ui", "bevy_text", "bevy_sprite", "bevy_state", "bevy_log", "bevy_picking", "bevy_ui_widgets", "bevy_window", "bevy_asset", "png", "jpeg", "default_font"] }
bevy_asset = "=0.19.1"
crossbeam-channel = "=0.5.17"
