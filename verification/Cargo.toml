[package]
name = "raymarch"
version = "0.1.0"
edition = "2021"
publish = false

[dependencies]
rand = "0.7"
rand_distr = "0.2"
image = { version = "0.23", default-features = false, features = ["png"] }
num-traits = "0.2"
