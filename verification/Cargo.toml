[package]
name = "eink_schedule"
version = "0.1.0"
edition = "2021"
publish = false

[dependencies]
chrono = "0.4"
embedded-graphics = "0.8"
epd-waveshare = "*"
