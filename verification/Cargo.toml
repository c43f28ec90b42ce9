[package]
name = "kiosk_engine"
version = "0.1.0"
edition = "2021"
publish = false

[dependencies]
minreq = "*"
sdl2 = { version = "*", features = ["ttf", "image"] }
serde = { version = "*", features = ["derive"] }
serde_json = "*"
