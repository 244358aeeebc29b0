[package]
name = "mofa_studio"
version = "0.1.0"
edition = "2021"
publish = false

[dependencies]
regex = "1"
serde_json = "1"
uuid = { version = "1", features = ["v4"] }
log = "0.4"
env_logger = "*"
clap = { version = "4", features = ["derive"] }
dirs = "*"
hound = "3"
parking_lot = "0.12"
thiserror = "*"
wry = "*"
raw-window-handle = "0.6"
objc2 = "*"
objc2-app-kit = "*"
objc2-foundation = "*"
windows = { version = "*", features = ["Win32_Foundation", "Win32_UI_WindowsAndMessaging"] }
