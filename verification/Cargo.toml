[package]
name = "footpedal"
version = "0.1.0"
edition = "2021"
publish = false

[dependencies]
cortex-m = "*"
critical-section = "*"
embedded-hal = "*"
panic-reset = "*"
rp-pico = "*"
usb-device = "*"
usbd-hid = "*"
