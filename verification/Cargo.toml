[package]
name = "nikolaj"
version = "0.1.0"
edition = "2021"
publish = false

[dependencies]
rust-sc2 = "=1.1.2"
num-traits = "=0.2.19"
