[package]
name = "siberon"
version = "0.1.0"
edition = "2021"
publish = false

[dependencies]
embedded-hal = { version = "=0.2.7", features = ["unproven"] }
generic-array = "=0.13.3"
keyberon = "=0.1.1"
usb-device = "=0.2.9"
