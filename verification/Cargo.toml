[package]
name = "save_data"
version = "0.1.0"
edition = "2021"
publish = false

[dependencies]
nrbf = "=0.2.2"
