[package]
name = "teeter"
version = "0.1.0"
edition = "2021"
publish = false

[dependencies]
ash = "=0.37.3"
env_logger = "=0.11.11"
glam = "=0.29.3"
log = "=0.4.35"
rustfft = "=6.4.1"
winit = "=0.30.13"
