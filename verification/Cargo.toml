[package]
name = "evolutionary"
version = "0.1.0"
edition = "2021"
publish = false

[dependencies]
rand = "0.8"
rayon = "1"
serde = "1"
serde_derive = "1"
toml = "0.8"
rand_distr = "0.4"
plotters = "0.3"
