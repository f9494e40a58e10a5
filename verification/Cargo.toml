[package]
name = "pto"
version = "0.1.0"
edition = "2021"
publish = false

[dependencies]
rustc-serialize = "0.3"
hyper = "0.10"
mio = "0.6"
