[package]
name = "raytracer"
version = "0.1.0"
edition = "2021"
publish = false

[dependencies]
hdrldr = "0.1"
impl_ops = "0.1"
indicatif = { version = "0.17", features = ["rayon"] }
rand = "0.8"
rayon = "1"
structopt = "0.3"
