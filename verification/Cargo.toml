[package]
name = "csl"
version = "0.1.0"
edition = "2021"
publish = false

[dependencies]
bytemuck = "*"
env_logger = "*"
gl = "*"
glam = "*"
glfw = "*"
log = "0.4"
