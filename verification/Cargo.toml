[package]
name = "terminal"
version = "0.2.0"
edition = "2021"
publish = false

[dependencies]
gfx_types = "*"
redpowder = "*"
