[package]
name = "flash_writer"
version = "0.1.0"
edition = "2021"
publish = false

[dependencies]
stm32-device-signature = { version = "*", features = ["stm32f0"] }
stm32f0xx-hal = { version = "*", features = ["stm32f042"] }
