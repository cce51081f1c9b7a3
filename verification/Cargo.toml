[package]
name = "open_oswst"
version = "0.1.0"
edition = "2021"
publish = false

[dependencies]
codec2 = "*"
embassy-futures = "*"
embassy-sync = "*"
embassy-time = "*"
embedded-graphics = "*"
esp-idf-svc = "0.52"
heapless = "0.8"
log = "0.4"
lora-phy = "3.0.1"
ssd1306 = "*"
