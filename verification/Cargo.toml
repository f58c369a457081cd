[package]
name = "com-notifier"
version = "0.1.0"
edition = "2021"
publish = false

[dependencies]
tokio = { version = "=1.54.1", features = ["macros", "rt-multi-thread", "sync"] }
windows = { version = "0.52", features = ["Data_Xml_Dom", "Foundation", "UI_Notifications"] }
windows-sys = { version = "=0.52.0", features = ["Win32_Foundation", "Win32_Graphics_Gdi", "Win32_Security", "Win32_System_LibraryLoader", "Win32_System_Registry", "Win32_System_SystemServices", "Win32_UI_WindowsAndMessaging"] }
