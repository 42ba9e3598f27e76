[package]
name = "backmeup"
version = "0.1.0"
edition = "2021"
publish = false

[dependencies]
serde = { version = "=1.0.229", features = ["derive"] }
toml = "=0.8.23"
chrono = "=0.4.45"
rdev = "=0.5.3"
eframe = { version = "=0.29.1", default-features = false, features = ["default_fonts", "glow", "x11"] }
windows-service = "=0.7.0"
x11 = { version = "=2.21.0", features = ["xlib"] }
core-graphics = "=0.19.2"
