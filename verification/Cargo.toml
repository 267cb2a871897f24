[package]
name = "chip8"
version = "0.1.0"
edition = "2021"
publish = false

[dependencies]
minifb = "0.25"
winit = "0.28"
winit_input_helper = "0.14"
