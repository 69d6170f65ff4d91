[package]
name = "seashell"
version = "0.1.0"
edition = "2021"
publish = false

[dependencies]
dirs = "=4.0.0"
kira = "0.7"
