[package]
name = "dybudget"
version = "0.1.0"
edition = "2021"
publish = false

[dependencies]
eframe = { version = "0.27", default-features = false, features = ["glow"] }
egui = { version = "=0.27.2", default-features = false, features = ["serde"] }
serde = { version = "=1.0.229", features = ["derive"] }
serde_json = "=1.0.154"
