[package]
name = "fa"
version = "0.2.0"
edition = "2021"
publish = false

[dependencies]
regex = "1"
clap = "2"
console = "0.15"
