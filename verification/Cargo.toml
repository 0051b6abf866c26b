[package]
name = "cantor36-rs"
version = "0.1.0"
edition = "2021"
publish = false

[dependencies]
keyberon = "=0.1.1"
usbd-hid = "=0.10.2"
defmt = "=1.2.0"
defmt-rtt = "=1.3.1"
panic-probe = "=1.0.0"
embassy-executor = { version = "=0.9.1", features = ["arch-spin", "executor-thread"] }
embassy-futures = "=0.1.2"
embassy-stm32 = { version = "=0.6.0", features = ["stm32f401cc", "time-driver-any", "exti"] }
embassy-sync = "=0.8.0"
embassy-time = "=0.5.1"
embassy-usb = "=0.6.0"
embedded-io-async = "=0.7.0"
futures = { version = "=0.3.34", default-features = false }
