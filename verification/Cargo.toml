[package]
name = "orchay"
version = "0.1.0"
edition = "2021"
publish = false

[dependencies]
base64 = "*"
chrono = "*"
serde = { version = "*", features = ["derive"] }
serde_json = "*"
serde_yaml = "*"
notify = "*"
notify-debouncer-mini = "*"
dirs = "*"
