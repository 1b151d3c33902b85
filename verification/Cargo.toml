[package]
name = "ender_dragon"
version = "0.1.0"
edition = "2021"
publish = false

[dependencies]
glam = "=0.34.2"
simdnbt = "=0.10.0"
