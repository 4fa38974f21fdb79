[package]
name = "gfx_core"
version = "0.1.0"
edition = "2021"
publish = false

[dependencies]
ash = "0.32"
