[package]
name = "window_jump"
version = "0.1.0"
edition = "2021"
publish = false

[dependencies]
anyhow = "1"
clap = { version = "4", features = ["derive"] }
eframe = { version = "0.34", default-features = false, features = ["default_fonts", "glow", "x11"] }
serde = { version = "1", features = ["derive"] }
serde_json = "1"
