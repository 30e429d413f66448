[package]
name = "afsim_linker"
version = "0.1.0"
edition = "2021"
publish = false

[dependencies]
urlencoding = "=2.1.3"
anyhow = "=1.0.104"
serde = { version = "=1.0.229", features = ["derive"] }
serde_json = "=1.0.154"
tracing = "=0.1.44"
tracing-subscriber = { version = "=0.3.23", features = ["env-filter"] }
eframe = { version = "=0.29.1", default-features = false, features = ["glow", "x11", "default_fonts"] }
egui = "=0.29.1"
rfd = { version = "0.15", default-features = false, features = ["xdg-portal", "async-std"] }
winreg = "0.55"
