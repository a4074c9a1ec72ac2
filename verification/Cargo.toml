[package]
name = "kakaotalk_adblock"
version = "0.1.0"
edition = "2021"
publish = false

[dependencies]
muda = "*"
open = "*"
parking_lot = "0.12"
serde = { version = "1", features = ["derive"] }
tray-icon = "*"
ureq = { version = "2", features = ["json"] }
windows = { version = "0.58", features = ["Win32_Foundation", "Win32_Globalization", "Win32_Graphics_Gdi", "Win32_Security", "Win32_System_Diagnostics_ToolHelp", "Win32_System_LibraryLoader", "Win32_System_Registry", "Win32_System_Threading", "Win32_UI_Input_KeyboardAndMouse", "Win32_UI_WindowsAndMessaging"] }
