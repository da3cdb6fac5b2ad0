[package]
name = "metrics"
version = "0.1.0"
edition = "2021"
publish = false

[dependencies]
sysinfo = "0.32"
serde = { version = "1", features = ["derive"] }
serde_json = "1"
libc = "0.2"
starship-battery = "0.10"
nvml-wrapper = "0.10"
windows-sys = { version = "0.52", features = ["Win32_Foundation", "Win32_NetworkManagement_IpHelper", "Win32_Networking_WinSock", "Win32_System_Threading"] }
