[package]
name = "nih-plug-playground"
version = "0.1.0"
edition = "2021"
publish = false

[dependencies]
rtrb = "=0.3.6"
crossbeam-channel = "=0.5.17"
clack-host = "=0.1.1"
clack-extensions = { version = "=0.1.1", features = ["clack-host", "audio-ports", "note-ports", "gui", "timer"] }
dirs = "=6.0.0"
eframe = { version = "=0.34.3", default-features = false, features = ["glow", "x11", "default_fonts"] }
egui = { version = "=0.34.3", default-features = false }
egui_code_editor = { version = "=0.2.27", default-features = false, features = ["egui", "editor"] }
rfd = { version = "=0.15.4", default-features = false, features = ["xdg-portal", "tokio"] }
serde = { version = "1", features = ["derive"] }
winit = { version = "=0.30.13", default-features = false, features = ["x11"] }
x11rb = "=0.13.2"
