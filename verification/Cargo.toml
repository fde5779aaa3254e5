[package]
name = "forth3"
version = "0.1.0"
edition = "2021"
publish = false

[dependencies]
portable-atomic = "1"
futures = "0.3"
walkdir = "2"
