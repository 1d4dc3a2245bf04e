[package]
name = "esp_radar"
version = "0.1.0"
edition = "2021"
publish = false

[dependencies]
anyhow = "1"
esp-idf-hal = "0.46"
esp-idf-svc = "0.52"
esp-idf-sys = "*"
heapless = "*"
log = "0.4"
serde = { version = "1", features = ["derive"] }
serde_json = "1"
