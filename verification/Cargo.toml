[package]
name = "multi_value_gen"
version = "0.1.0"
edition = "2021"
publish = false

[dependencies]
walrus = "*"
id-arena = "*"
