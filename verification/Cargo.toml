[package]
name = "bevy_server_browser"
version = "0.1.0"
edition = "2021"
publish = false

[dependencies]
bevy_app = { version = "0.12", default-features = false }
bevy_ecs = { version = "0.12", default-features = false }
bevy_utils = "0.12"
gethostname = "0.4"
mdns-sd = "0.9"
