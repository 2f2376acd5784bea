[package]
name = "px2"
version = "0.1.0"
edition = "2021"
publish = false

[dependencies]
colored = "*"
