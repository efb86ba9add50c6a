[package]
name = "multimpaste"
version = "0.1.0"
edition = "2021"
publish = false

[dependencies]
arboard = { version = "=3.7.0", default-features = false }
auto-launch = "=0.6.0"
dirs = "=7.0.0"
eframe = { version = "=0.37.0", default-features = false, features = ["glow", "x11", "default_fonts"] }
enigo = "=0.6.1"
global-hotkey = "=0.9.0"
objc2 = "=0.6.5"
objc2-app-kit = { version = "=0.3.2", default-features = false }
serde = { version = "=1.0.229", features = ["derive"] }
serde_json = "=1.0.154"
tray-icon = { version = "=0.26.1", default-features = false, features = ["ksni"] }
