[package]
name = "snake"
version = "0.1.0"
edition = "2021"
publish = false

[dependencies]
bevy = { version = "=0.6.1", default-features = false, features = ["bevy_core_pipeline", "bevy_render", "bevy_sprite", "bevy_winit", "x11"] }
# Not used directly: bevy's derive crates need syn's full parser and do not
# ask for it themselves; this crate does.
pin-project-internal = "=1.0.12"
rand = "=0.7.3"
