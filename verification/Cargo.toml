[package]
name = "instant_dev"
version = "0.1.0"
edition = "2021"
publish = false

[dependencies]
dirs = "*"
open = "*"
termion = "*"
