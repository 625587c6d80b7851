[package]
name = "synopsys-usb-otg"
version = "0.1.0"
edition = "2021"
publish = false

[dependencies]
usb-device = "*"
stm32ral = { version = "*", features = ["stm32f429"] }
cortex-m = "*"
