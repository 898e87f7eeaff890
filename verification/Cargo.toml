[package]
name = "gopro-cam-tray"
version = "0.1.0"
edition = "2021"
publish = false

[dependencies]
ctrlc = "3"
if-addrs = "0.13"
ksni = "0.3"
libc = "0.2"
tokio = { version = "1", features = ["rt", "time"] }
windows = { version = "0.58", features = ["Win32_Foundation", "Win32_Graphics_Gdi", "Win32_Media_MediaFoundation", "Win32_Networking_WinSock", "Win32_Security", "Win32_System_Com", "Win32_System_Com_StructuredStorage", "Win32_System_LibraryLoader", "Win32_System_Threading", "Win32_System_Variant", "Win32_UI_Shell", "Win32_UI_WindowsAndMessaging"] }
