[package]
name = "life_game"
version = "0.1.0"
edition = "2021"
publish = false

[dependencies]
kd-tree = "=0.6.2"
pyo3 = "*"
rand = "=0.9.5"
