[package]
name = "led_strip"
version = "0.1.0"
edition = "2021"
publish = false

[dependencies]
embedded-hal = "1.0"
heapless = "0.8"
