[package]
name = "zoomer_gp"
version = "0.1.0"
edition = "2021"
publish = false

[dependencies]
extendr-api = "*"
indicatif = "*"
ndarray = "*"
ndarray-linalg = "*"
rand = "*"
rand_distr = "*"
