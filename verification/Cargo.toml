[package]
name = "rfid-stm32h750"
version = "0.1.0"
edition = "2021"
publish = false

[dependencies]
embedded-hal = "0.2"
nb = "1"
cortex-m = "0.7"
cortex-m-rt = "0.7"
panic-halt = "0.2"
embedded-graphics = "0.8"
heapless = "0.8"
stm32h7xx-hal = { version = "0.16", features = ["stm32h750v", "rt"] }
