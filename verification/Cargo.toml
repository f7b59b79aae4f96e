[package]
name = "grep_wrapper"
version = "0.1.0"
edition = "2021"
publish = false

[dependencies]
clap = "2"
colored = "*"
pathdiff = "*"
regex = "1"
