[package]
name = "trip_or_treat"
version = "0.1.0"
edition = "2021"
publish = false

[dependencies]
argh = "0.1"
chrono = { version = "0.4", features = ["serde"] }
framebuffer = "0.3"
once_cell = "1"
rppal = "0.11"
rusttype = "0.9"
sdl2 = "0.34"
serde = "1"
serde_derive = "1"
serde_json = "1"
ttf-noto-sans = "0.1"
ureq = { version = "1", features = ["json"] }
