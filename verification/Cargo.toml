[package]
name = "ppx"
version = "0.1.0"
edition = "2021"
publish = false

[dependencies]
vfs = "*"
thiserror = "*"
