[package]
name = "espcam"
version = "0.1.0"
edition = "2021"
publish = false

[dependencies]
image = { version = "=0.24.9", default-features = false, features = ["png"] }
rgb565 = "=0.1.3"
anyhow = "=1.0.104"
log = "=0.4.34"
lazy_static = "=1.5.1"
tokio = { version = "=1.54.1", features = ["rt", "time", "sync", "macros"] }
esp32-nimble = "=0.5.1"
esp-idf-hal = "=0.42.5"
esp-idf-svc = "=0.47.3"
esp-idf-sys = "=0.33.7"
