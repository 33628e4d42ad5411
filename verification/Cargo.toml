[package]
name = "chip8"
version = "0.1.0"
edition = "2021"
publish = false

[dependencies]
rand = "0.8"
pretty-hex = "0.4"
console = "0.15"
sdl2 = "0.37"
rodio = "0.11"
