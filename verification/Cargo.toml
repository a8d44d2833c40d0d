[package]
name = "ff_helper"
version = "0.1.0"
edition = "2021"
publish = false

[dependencies]
image = { version = "0.24", default-features = false }
mozjpeg = "0.10"
ffmpeg-next = "6"
ffmpeg-sys-next = "6"
napi = { version = "2", features = ["napi4"] }
napi-derive = "2"
rayon = "1"
log = "0.4"
env_logger = "0.10"
once_cell = "1"
