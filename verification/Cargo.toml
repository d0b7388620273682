[package]
name = "iot_gateway"
version = "2.2.1"
edition = "2021"
publish = false

[dependencies]
anyhow = "=1.0.104"
esp-idf-svc = "*"
esp-idf-sys = "*"
heapless = "=0.8.0"
log = "=0.4.35"
once_cell = "=1.21.4"
parking_lot = "=0.12.5"
