[package]
name = "firefly_helper"
version = "0.1.0"
edition = "2021"
publish = false

[dependencies]
patternscan = "*"
anyhow = "*"
ilhook = "*"
lazy_static = "*"
winapi = { version = "*", features = ["winnt", "processthreadsapi"] }
windows = { version = "*", features = ["Win32_Foundation", "Win32_System_Console", "Win32_System_SystemServices", "Win32_System_LibraryLoader", "Win32_System_Memory"] }
