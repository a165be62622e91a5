[package]
name = "fpv"
version = "0.1.0"
edition = "2021"
publish = false

[dependencies]
env_logger = "0.4"
ffmpeg = "*"
gl = "0.14"
glutin = "0.21"
log = "0.3"
