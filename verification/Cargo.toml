[package]
name = "rebind"
version = "0.1.0"
edition = "2021"
publish = false

[dependencies]
itertools = "*"
pistoncore-input = "*"
pistoncore-window = "*"
piston-viewport = "*"
