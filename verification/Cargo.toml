[package]
name = "image_views"
version = "0.1.0"
edition = "2021"
publish = false

[dependencies]
ash = "0.31"
winit = "0.24"
winapi = { version = "0.3", features = ["windef", "libloaderapi"] }
log = "0.4"
