[package]
name = "nanoguirustsdl"
version = "0.1.0"
edition = "2021"
publish = false

[dependencies]
nanovg = { version = "=1.0.2", features = ["gl3"] }
sdl2 = "=0.38.0"
sdl2-sys = "=0.38.0"
