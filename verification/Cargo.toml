[package]
name = "epaper_refresh"
version = "0.1.0"
edition = "2021"
publish = false

[dependencies]
embedded-graphics = "0.7"
epd-waveshare = "0.5"
embedded-hal = "0.2"
cortex-m = "0.7"
rp-pico = "0.8"
usb-device = "0.2"
usbd-serial = "0.1"
