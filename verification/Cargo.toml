[package]
name = "keyremap"
version = "0.1.0"
edition = "2021"
publish = false

[dependencies]
keyberon = "*"
x11rb = "0.13"
embedded-hal = "0.2"
