[package]
name = "chip8"
version = "0.1.0"
edition = "2021"
publish = false

[dependencies]
rand = "0.8"
sdl2 = "0.35"
eframe = "0.19"
image = { version = "0.24", default-features = false }
tokio = { version = "1", features = ["rt-multi-thread", "sync", "time"] }
