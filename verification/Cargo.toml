[package]
name = "robin_hood"
version = "0.1.0"
edition = "2021"
publish = false

[dependencies]
rand = "=0.7.3"
ggez = "=0.5.1"
ncollide2d = "0.19"
nalgebra = "=0.18.1"
mint = "=0.5.9"
