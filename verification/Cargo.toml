[package]
name = "reminder"
version = "0.1.0"
edition = "2021"
publish = false

[dependencies]
env_logger = { version = "0.10", default-features = false }
pollster = "0.3"
winit = { version = "0.29", default-features = false, features = ["rwh_06", "x11"] }
