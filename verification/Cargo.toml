[package]
name = "emotions"
version = "0.1.0"
edition = "2021"
publish = false

[dependencies]
serde_json = "1"
urlencoding = "2"
reqwest = { version = "0.11", features = ["blocking"] }
gtk4 = "0.6"
windows = { version = "0.48", features = ["Win32_Foundation", "Win32_System_DataExchange", "Win32_System_Memory", "Win32_System_Ole", "Win32_UI_Shell"] }
