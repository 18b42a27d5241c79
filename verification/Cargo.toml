[package]
name = "kurve"
version = "0.1.0"
edition = "2021"
publish = false

[dependencies]
alloc-cortex-m = "0.4"
bresenham = "=0.1.1"
cortex-m = "0.7"
cortex-m-rt = "0.7"
cortex-m-semihosting = "0.5"
embedded-graphics = "=0.4.9"
libm = "=0.2.16"
stm32f7 = { version = "0.15", features = ["stm32f7x6", "rt"] }
