[package]
name = "launch_director"
version = "0.1.0"
edition = "2021"
publish = false

[dependencies]
clap = { version = "4", features = ["derive"] }
color-eyre = "0.6"
eframe = { version = "0.31", default-features = false, features = ["default_fonts", "glow", "x11"] }
egui_term = "*"
serde_json = "1"
tempfile = "3"
