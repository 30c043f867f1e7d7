[package]
name = "noize"
version = "0.1.0"
edition = "2021"
publish = false

[dependencies]
rand = "0.8"
rand_chacha = "0.3"
hound = "*"

[dependencies.image]
version = "*"
default-features = false
features = ["png"]
