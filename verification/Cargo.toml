[package]
name = "crown"
version = "0.1.0"
edition = "2021"
publish = false

[dependencies]
hidpp = "*"
appcatalog = "*"
tokio = { version = "1", features = ["full"] }
tracing = "0.1"
anyhow = "1"
clap = { version = "4", features = ["derive"] }
serde = { version = "1", features = ["derive"] }
windows-sys = { version = "0.61", features = ["Win32_Foundation", "Win32_Graphics_Dwm", "Win32_Graphics_Gdi", "Win32_System_LibraryLoader", "Win32_UI_HiDpi", "Win32_UI_WindowsAndMessaging"] }
