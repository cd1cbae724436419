[package]
name = "kazari"
version = "0.1.0"
edition = "2021"
publish = false

[dependencies]
anstyle = "*"
irodori = "*"
terminal_size = "*"
unicode-width = "*"
