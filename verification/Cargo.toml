[package]
name = "ground_control"
version = "0.1.0"
edition = "2021"
publish = false

[dependencies]
mavlink-core = { version = "=0.14.1", default-features = false, features = ["std"] }
serialport = { version = "=4.10.1", default-features = false }
eframe = { version = "=0.31.1", default-features = false, features = ["default_fonts", "glow", "x11"] }
env_logger = "=0.11.11"
