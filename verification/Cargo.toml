[package]
name = "telemetry_bridge"
version = "0.1.0"
edition = "2021"
publish = false

[dependencies]
chrono = "0.4"
eframe = { version = "0.22", default-features = false, features = ["default_fonts", "glow"] }
reqwest = { version = "0.11", default-features = false, features = ["blocking", "json"] }
rosc = "0.10"
serde = { version = "1", features = ["derive"] }
serde_json = "1"
