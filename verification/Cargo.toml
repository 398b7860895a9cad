[package]
name = "zslime"
version = "0.1.0"
edition = "2021"
publish = false

[dependencies]
rand = "0.8"
log = "0.4"
env_logger = "0.10"
error-iter = "0.4"
game-loop = { version = "0.10", features = ["winit"] }
pixels = "0.13"
winit = "0.28"
winit_input_helper = "0.14"
