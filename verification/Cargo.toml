[package]
name = "timer_delay"
version = "0.1.0"
edition = "2021"
publish = false

[dependencies]
embedded-hal = "0.2"
stm32f4xx-hal = { version = "0.8", features = ["stm32f411"] }
