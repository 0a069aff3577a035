[package]
name = "fastbloom"
version = "0.1.0"
edition = "2021"
publish = false

[dependencies]
siphasher = "1"
getrandom = "0.2"
