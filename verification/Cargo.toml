[package]
name = "peoplegen"
version = "0.1.0"
edition = "2021"
publish = false

[dependencies]
chrono = "0.4"
clap = "4"
comp = "*"
csv = "1"
json = "0.12"
rand = "0.8"
rand_distr = "0.4"
thousands = "0.2"

[dev-dependencies]
funty = "2"
