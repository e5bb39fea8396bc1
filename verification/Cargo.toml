[package]
name = "gse_next"
version = "0.1.0"
edition = "2021"
publish = false

[dependencies]
base64 = "=0.22.1"
qrcode = { version = "=0.14.1", default-features = false, features = ["svg"] }
crossbeam-channel = "=0.5.17"
tiny_http = "=0.12.0"
tracing = "=0.1.44"
tracing-subscriber = "=0.3.23"
serde = { version = "=1.0.229", features = ["derive"] }
lazy_static = "=1.5.1"
windows = { version = "0.58", features = ["Foundation", "Devices_Geolocation", "Devices_Sensors", "Win32_Foundation", "Win32_System_Com", "Win32_System_WinRT", "Win32_UI_Accessibility", "Win32_UI_Input_Ime", "Win32_UI_WindowsAndMessaging"] }
core-foundation = "*"
core-graphics = "*"
