[package]
name = "string_evolver"
version = "0.1.0"
edition = "2021"
publish = false

[dependencies]
itertools = "0.8"
rand = "0.7"
