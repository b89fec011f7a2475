[package]
name = "wallpaper-manager"
version = "0.1.0"
edition = "2021"
publish = false

[dependencies]
clap = { version = "4", default-features = false, features = ["derive", "error-context", "help", "std", "usage"] }
dirs = "6"
eframe = { version = "0.30", default-features = false, features = ["default_fonts", "glow", "wayland"] }
egui = "0.30"
image = { version = "0.25", default-features = false, features = ["bmp", "jpeg", "png", "webp"] }
rfd = { version = "0.15", default-features = false, features = ["xdg-portal", "tokio"] }
serde = { version = "1", features = ["derive"] }
serde_json = "1"
