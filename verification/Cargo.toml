[package]
name = "uiexplore"
version = "0.1.0"
edition = "2021"
publish = false

[dependencies]
time = "0.3"
uiautomation = "*"
windows = { version = "*", features = ["Win32_Foundation", "Win32_Graphics_Gdi", "Win32_UI_WindowsAndMessaging"] }
