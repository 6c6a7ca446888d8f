[package]
name = "minimal_logger"
version = "0.2.0"
edition = "2021"
publish = false

[dependencies]
arc-swap = "=1.9.3"
libc = "=0.2.191"
log = { version = "=0.4.35", features = ["std"] }
time = { version = "=0.3.55", features = ["formatting"] }
windows = { version = "=0.58.0", features = ["Win32_Foundation", "Win32_Security", "Win32_Storage_FileSystem", "Win32_System_Threading"] }
