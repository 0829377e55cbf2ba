[package]
name = "breakbar"
version = "0.8.1"
edition = "2021"
publish = false

[dependencies]
lexopt = "0.3"
sys-locale = "0.3"
serde = { version = "1", features = ["derive"] }
toml = "0.8"
thiserror = "2"
windows = { version = "0.61", features = ["Win32_Foundation", "Win32_Security", "Win32_Storage_FileSystem", "Win32_System_Registry", "Win32_System_Threading", "Win32_System_Diagnostics_ToolHelp", "Win32_System_IO", "Win32_System_Ioctl", "Win32_System_SystemInformation", "Win32_System_Com", "Win32_System_Console", "Win32_System_LibraryLoader", "Win32_UI_WindowsAndMessaging", "Win32_UI_Shell", "Win32_UI_Shell_Common", "Win32_Graphics_Dwm", "Win32_Graphics_Gdi"] }
