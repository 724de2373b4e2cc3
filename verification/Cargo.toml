[package]
name = "pico_autofill"
version = "0.1.0"
edition = "2021"
publish = false

[dependencies]
embassy-futures = "=0.1.2"
embassy-sync = "=0.8.0"
embassy-time = "=0.5.1"
embassy-usb = "=0.6.0"
panic-halt = "=1.0.0"
portable-atomic = { version = "=1.15.0", features = ["critical-section"] }
usbd-hid = "=0.10.2"
