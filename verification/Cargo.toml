[package]
name = "frame_flatten"
version = "0.1.0"
edition = "2021"
publish = false

[dependencies]
app_units = "*"
cssparser = "*"
euclid = "*"
fnv = "*"
