[package]
name = "kitchen_companion"
version = "0.1.0"
edition = "2021"
publish = false

[dependencies]
embedded-graphics = "0.8"
esp-idf-hal = "0.46"
esp-idf-svc = "*"
log = "0.4"
mipidsi = "0.9"
toml-cfg = "0.2"
