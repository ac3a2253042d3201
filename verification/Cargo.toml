[package]
name = "embedded_graphics_in_memory"
version = "0.1.0"
edition = "2021"
publish = false

[dependencies]
embedded-graphics = "0.8"
