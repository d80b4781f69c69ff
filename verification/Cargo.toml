[package]
name = "rkscan"
version = "0.1.0"
edition = "2021"
publish = false

[dependencies]
clap = { version = "4", features = ["cargo"] }
rusb = { version = "0.9", features = ["vendored"] }
