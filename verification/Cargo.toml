[package]
name = "cue"
version = "0.1.0"
edition = "2021"
publish = false

[dependencies]
arboard = { version = "=3.7.0", default-features = false }
base64 = "=0.22.1"
enigo = { version = "=0.6.1", default-features = false }
global-hotkey = "=0.7.0"
native-tls = "=0.2.18"
pulldown-cmark = { version = "=0.13.6", default-features = false, features = ["html"] }
serde = { version = "=1.0.229", features = ["derive"] }
serde_json = "=1.0.154"
toml = "=0.9.12"
ureq = { version = "=2.12.1", default-features = false, features = ["native-tls"] }
windows = { version = "=0.61.3", features = ["Win32_System_Com", "Win32_UI_Accessibility"] }
windows-sys = { version = "=0.60.2", features = ["Win32_Foundation", "Win32_Graphics_Gdi", "Win32_System_DataExchange", "Win32_System_Memory", "Win32_System_SystemInformation", "Win32_System_Threading", "Win32_UI_HiDpi", "Win32_UI_Shell", "Win32_UI_WindowsAndMessaging"] }
winreg = "=0.55.0"
