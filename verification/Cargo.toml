[package]
name = "render_engine"
version = "0.1.0"
edition = "2021"
publish = false

[dependencies]
glam = "*"
log = "0.4"
env_logger = "*"
num-traits = "0.2"
winit = "0.29"
raw-window-handle = "0.6"
metal = "*"
cocoa = "*"
core-graphics = "*"
objc = "0.2"
