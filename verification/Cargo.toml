[package]
name = "launcher"
version = "0.1.0"
edition = "2021"
publish = false

[dependencies]
regex = "1"
serde = { version = "1", features = ["derive"] }
serde_json = "1"
tiny_http = "0.12"
ureq = "2"
winreg = "0.52"
windows = { version = "0.58", features = ["Win32_Foundation", "Win32_System_Registry", "Win32_System_Diagnostics_ToolHelp", "Win32_System_LibraryLoader", "Win32_System_ProcessStatus", "Win32_System_Threading", "Win32_UI_WindowsAndMessaging", "Win32_UI_Input_XboxController", "Win32_System_Power"] }
