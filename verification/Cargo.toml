[package]
name = "visionhub_os"
version = "0.1.0"
edition = "2021"
publish = false

[dependencies]
anyhow = "*"
display-interface = "*"
embedded-graphics = "*"
esp-idf-hal = "*"
esp-idf-svc = "*"
log = "*"
ssd1306 = "*"
