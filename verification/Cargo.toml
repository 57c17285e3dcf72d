[package]
name = "mandelbrot"
version = "0.1.0"
edition = "2021"
publish = false

[dependencies]
colorgrad = "0.6"
dotenv = "0.15"
env_logger = "0.10"
pixels = "0.13"
winit = "0.28"
winit_input_helper = "0.14"
