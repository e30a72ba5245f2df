[package]
name = "buoyant"
version = "0.1.0"
edition = "2021"
publish = false

[dependencies]
fixed = "*"
embedded-touch = "*"
embedded-graphics-core = "*"
heapless = "*"
bitvec = "*"
