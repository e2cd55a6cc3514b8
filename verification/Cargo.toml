[package]
name = "fsconcat"
version = "0.1.0"
edition = "2021"
publish = false

[dependencies]
pulldown-cmark = "0.9"
humantime = "2"
structopt = "0.3"
