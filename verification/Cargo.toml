[package]
name = "pathy"
version = "0.1.0"
edition = "2021"
publish = false

[dependencies]
eframe = { version = "*", default-features = false, features = ["glow", "persistence", "default_fonts", "x11"] }
egui = "*"
egui_extras = { version = "*", default-features = false, features = ["image"] }
serde = { version = "*", features = ["derive"] }
