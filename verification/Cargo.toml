[package]
name = "botd_edge"
version = "0.1.0"
edition = "2021"
publish = false

[dependencies]
fastly = "*"
regex = "*"
