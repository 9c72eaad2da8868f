[package]
name = "libaeon"
version = "0.1.0"
edition = "2021"
publish = false

[dependencies]
crossbeam = "0.2"
time = "0.1"
