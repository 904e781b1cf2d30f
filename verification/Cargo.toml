[package]
name = "ascii_img"
version = "0.1.0"
edition = "2021"
publish = false

[dependencies]
num-rational = "*"
num-traits = "*"
rayon = "*"
