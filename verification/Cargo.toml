[package]
name = "maze_gen"
version = "0.1.0"
edition = "2021"
publish = false

[dependencies]
rand = "=0.10.3"
sdl2 = { version = "=0.38.0", features = ["ttf", "gfx"] }
