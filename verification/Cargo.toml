[package]
name = "quiz_app"
version = "0.1.0"
edition = "2021"
publish = false

[dependencies]
eframe = { version = "*", default-features = false, features = ["glow", "default_fonts", "x11"] }
egui_extras = { version = "*", default-features = false, features = ["image"] }
env_logger = "=0.11.11"
image = { version = "*", default-features = false, features = ["png"] }
serde = { version = "=1.0.229", features = ["derive"] }
serde_yaml = "=0.9.34"
