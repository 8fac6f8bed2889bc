[package]
name = "elevator"
version = "0.1.0"
edition = "2021"
publish = false

[dependencies]
cortex-m = "0.7"
embedded-graphics = "0.8"
embedded-hal = "0.2"
fugit = "0.3"
heapless = "0.7"
rp-pico = "0.8"
ssd1306 = "0.8"
