[package]
name = "slide_player"
version = "0.1.0"
edition = "2021"
publish = false

[dependencies]
bevy = { version = "=0.5.0", default-features = false, features = ["bevy_wgpu", "bevy_winit", "render", "png", "x11"] }
bevy_egui = { version = "=0.5.0", default-features = false }
bevy_webgl2 = "0.5"
image = "=0.23.14"
serde = { version = "=1.0.229", features = ["derive"] }
serde_json = "=1.0.154"
ureq = "=2.12.1"
wasm-bindgen = "0.2"
