[package]
name = "png_decoder"
version = "0.1.0"
edition = "2021"

[dependencies]
miniz_oxide = "0.7"
pixels = "0.10"
winit = "0.27"
winit_input_helper = "0.13"
