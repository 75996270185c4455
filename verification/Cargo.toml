[package]
name = "ac4_player"
version = "0.1.0"
edition = "2021"
publish = false

[dependencies]
sha2 = "0.10"
serde = { version = "1", features = ["derive"] }
serde_json = "1"
tempfile = "3"
rusqlite = { version = "*", features = ["bundled"] }
eframe = { version = "*", default-features = false, features = ["glow", "default_fonts", "x11"] }
rfd = { version = "*", default-features = false, features = ["xdg-portal"] }
