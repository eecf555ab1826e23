[package]
name = "exercises"
version = "0.1.0"
edition = "2021"
publish = false

[dependencies]
rand = "0.8"
num-bigint = "0.4"
