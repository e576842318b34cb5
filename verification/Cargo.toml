[package]
name = "ask433"
version = "0.1.0"
edition = "2021"
publish = false

[dependencies]
embedded-hal = "1"
critical-section = "1"
nb = "1"
libm = "0.2"
