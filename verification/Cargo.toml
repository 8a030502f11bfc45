[package]
name = "fbcon"
version = "0.1.0"
edition = "2021"
publish = false

[dependencies]
crossbeam-queue = "*"
futures-util = "*"
spin = "*"
lazy_static = "*"
