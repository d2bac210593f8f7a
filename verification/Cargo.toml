[package]
name = "rpi_control"
version = "0.1.0"
edition = "2021"
publish = false

[dependencies]
serde_cbor = "=0.11.2"
zmq = { version = "=0.9.2", features = ["vendored"] }
rppal = "=0.11.3"
cpython = "=0.5.2"
rocket = { version = "=0.5.2", features = ["secrets"] }
askama = "=0.10.5"
tokio = { version = "=1.54.1", features = ["macros", "net", "rt-multi-thread"] }
nb = "=0.1.3"
cortex-m = "=0.6.7"
cortex-m-rt = "=0.6.15"
cortex-m-semihosting = "=0.3.7"
panic-halt = "=0.2.0"
stm32l4xx-hal = { version = "=0.5.0", features = ["stm32l4x6", "rt"] }
