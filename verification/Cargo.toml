[package]
name = "kotoa_display"
version = "0.1.0"
edition = "2021"
publish = false

[dependencies]
embedded-graphics = "0.8"
embedded-hal = "1.0"
embedded-hal-bus = "*"
esp-hal = { version = "1.0", features = ["esp32", "unstable"] }
log = "0.4"
