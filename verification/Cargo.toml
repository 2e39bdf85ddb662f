[package]
name = "formatmd"
version = "0.1.0"
edition = "2021"
publish = false

[dependencies]
pulldown-cmark = "0.13"
toml = "0.8"
clap = "4"
markdown = "*"
