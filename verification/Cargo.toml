[package]
name = "rbshell"
version = "0.1.0"
edition = "2021"
publish = false

[dependencies]
anyhow = "*"
chrono = "*"
clap = { version = "*", features = ["derive"] }
env_logger = "*"
freedesktop-desktop-entry = "*"
freedesktop-icons = "*"
log = "*"
once_cell = "*"
serde = { version = "*", features = ["derive"] }
serde_json = "*"
thiserror = "*"
wayland-client = "*"
wayland-protocols-plasma = { version = "*", features = ["client"] }
wayland-protocols-wlr = { version = "*", features = ["client"] }
