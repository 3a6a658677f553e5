[package]
name = "riew"
version = "0.1.0"
edition = "2021"
publish = false

[dependencies]
clap = "3.2"
owning_ref = "0.4"
sdl2 = { version = "0.35", features = ["image", "ttf"] }
