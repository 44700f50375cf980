[package]
name = "intentglyph"
version = "0.1.0"
edition = "2021"
publish = false

[dependencies]
sdl2 = { version = "*", features = ["image", "ttf"] }
serde = { version = "*", features = ["derive"] }
serde_json = "*"
