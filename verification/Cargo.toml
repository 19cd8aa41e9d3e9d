[package]
name = "raxis"
version = "0.1.0"
edition = "2021"
publish = false

[dependencies]
windows = { version = "0.61", features = ["Win32_Foundation", "Win32_Graphics_Gdi", "Win32_Graphics_Dwm", "Win32_UI_WindowsAndMessaging", "Win32_UI_Input_KeyboardAndMouse", "Win32_UI_Input_Ime", "Win32_UI_Shell", "Win32_UI_Controls", "Win32_UI_HiDpi", "Win32_System_Com", "Win32_System_Ole", "Win32_System_Memory", "Win32_System_SystemServices", "Win32_System_LibraryLoader"] }
windows-core = "0.61"
windows-numerics = "0.2"
slotmap = "1"
string-interner = "0.19"
futures = "0.3"
log = "0.4"
thiserror = "2"
smol = "2"
proc-macro2 = "1"
quote = "1"
syn = { version = "2", features = ["full"] }
lazy_static = "1"
