[package]
name = "ds1302"
version = "0.1.0"
edition = "2021"
publish = false

[dependencies]
embedded-hal = "0.2"
fugit = "0.3"
nb = "1"
