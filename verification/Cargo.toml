[package]
name = "osd_render"
version = "0.1.0"
edition = "2021"
publish = false

[dependencies]
crossbeam-channel = "0.5"
ffmpeg-sidecar = "*"
image = "0.23"
imageproc = "0.22"
rusttype = "0.9"
srtparse = "*"
