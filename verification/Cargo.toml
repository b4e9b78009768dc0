[package]
name = "whip"
version = "0.1.0"
edition = "2021"
publish = false

[dependencies]
base64 = "0.21"
chrono = "0.4"
serde = { version = "1", features = ["derive"] }
serde_json = "1"
sysinfo = "0.29"
windows-sys = { version = "0.48", features = ["Win32_Foundation", "Win32_System_Performance", "Win32_System_Registry", "Win32_System_Threading", "Win32_Security", "Win32_System_Memory", "Win32_System_SystemServices", "Win32_UI_Input_KeyboardAndMouse"] }
winreg = "0.50"
widestring = "1"
libc = "0.2"
log = "0.4"
ctrlc = "3"
getopts = "0.2"
windows-service = "0.6"
