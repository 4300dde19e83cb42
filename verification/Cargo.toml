[package]
name = "monitor-tray-control"
version = "0.1.0"
edition = "2021"
publish = false

[dependencies]
ddc-hi = { version = "0.4", default-features = false, features = ["ddc-winapi"] }
env_logger = { version = "0.11", default-features = false }
log = "0.4"
tauri = { version = "2", default-features = false, features = ["tray-icon"] }
tauri-plugin-autostart = "2"
windows = { version = "0.62", features = ["Win32_Foundation", "Win32_Security", "Win32_System_LibraryLoader", "Win32_System_Threading", "Win32_UI_WindowsAndMessaging"] }
winreg = "0.56"
