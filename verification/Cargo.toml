[package]
name = "uart_bridge"
version = "0.1.0"
edition = "2021"
publish = false

[dependencies]
heapless = "0.8"
f3 = "0.6"
cortex-m = "0.5"
cortex-m-rt = "0.6"
panic-itm = "0.4"
