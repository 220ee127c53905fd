[package]
name = "jartool"
version = "0.1.0"
edition = "2021"
publish = false

[dependencies]
regex = "*"
zip = "*"
clap = "*"
colored = "*"
csv = "*"
walkdir = "*"
rayon = "*"
num_cpus = "*"
