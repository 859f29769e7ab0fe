[package]
name = "pathtracer"
version = "0.1.0"
edition = "2021"
publish = false

[dependencies]
rand = "=0.8.8"
cgmath = "=0.18.0"
image = { version = "=0.24.9", default-features = false, features = ["png"] }
rayon = "=1.12.0"
tobj = "=3.2.5"
indicatif = "0.17"
