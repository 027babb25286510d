[package]
name = "fractal"
version = "0.1.0"
edition = "2021"
publish = false

[dependencies]
crossbeam = "0.8"
glium = "0.31"
image = "0.24"
lazy_static = "1"
num-complex = "0.4"
num_cpus = "1"
rayon = "1"
rug = "1"
