[package]
name = "rogue_core"
version = "0.1.0"
edition = "2021"
publish = false

[dependencies]
rltk = "0.8"
