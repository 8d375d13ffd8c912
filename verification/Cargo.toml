[package]
name = "pathwarp"
version = "0.1.0"
edition = "2021"
publish = false

[dependencies]
url = "2"
log = "0.4"
env_logger = "*"
raw-window-handle = "0.6"
egui = "*"
eframe = { version = "*", default-features = false, features = ["glow", "x11", "default_fonts"] }
windows = { version = "*", features = ["Win32_Foundation", "Win32_UI_WindowsAndMessaging", "Win32_UI_Shell", "Win32_System_Com", "Win32_System_Variant", "Win32_UI_Accessibility", "Win32_UI_HiDpi", "Win32_Graphics_Dwm", "Win32_UI_Input_KeyboardAndMouse", "Win32_System_LibraryLoader", "Win32_System_Threading"] }
