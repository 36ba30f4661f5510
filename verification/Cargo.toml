[package]
name = "enc28j60"
version = "0.1.0"
edition = "2021"
publish = false

[dependencies]
heapless = "0.8"
embedded-hal = "1"
embedded-hal-bus = "*"
ux = "*"
