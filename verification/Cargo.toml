[package]
name = "quantum_providers"
version = "0.1.0"
edition = "2021"
publish = false

[dependencies]
serde = { version = "=1.0.229", features = ["derive"] }
serde_json = "=1.0.154"
chrono = "=0.4.45"
base64 = "=0.22.1"
png = "=0.18.1"
evalexpr = "=13.1.0"
shell-words = "=1.1.1"
which = "=8.0.6"
tempfile = "=3.27.0"
image = { version = "0.25", default-features = false, features = ["png"] }
freedesktop-desktop-entry = "0.5"
freedesktop-icons = "0.2"
