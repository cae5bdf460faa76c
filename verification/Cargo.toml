[package]
name = "ceos"
version = "0.1.0"
edition = "2021"
publish = false

[dependencies]
memchr = "2"
regex = "1"
serde = { version = "1", features = ["derive"] }
toml = "*"
log = "0.4"
env_logger = "*"
humansize = "2"
egui = "*"
eframe = { version = "*", default-features = false, features = ["default_fonts", "glow", "x11"] }
