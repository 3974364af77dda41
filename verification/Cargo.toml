[package]
name = "slcan"
version = "0.1.0"
edition = "2021"
publish = false

[dependencies]
embedded-can = "*"
nb = "1"
serial = "0.4"
serial-core = "0.4"
