[package]
name = "pixel_receiver"
version = "0.1.0"
edition = "2021"
publish = false

[dependencies]
servicepoint2 = "*"
clap = { version = "4", features = ["derive"] }
env_logger = "0.11"
log = "0.4"
winit = { version = "0.30", default-features = false, features = ["rwh_06", "x11"] }
