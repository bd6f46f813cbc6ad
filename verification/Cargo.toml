[package]
name = "paginate"
version = "0.1.0"
edition = "2021"
publish = false

[dependencies]
diecast = "*"
typemap = "*"
