[package]
name = "d3d12_utils"
version = "0.1.0"
edition = "2021"
publish = false

[dependencies]
anyhow = "=1.0.104"
array-init = "=2.1.0"
ddsfile = "=0.6.0"
glam = "=0.34.1"
hassle-rs = "=0.12.0"
lazy_static = "=1.5.1"
raw-window-handle = "=0.5.2"
regex = "=1.13.1"
windows = { version = "=0.39.0", features = ["Win32_Foundation", "Win32_Graphics_Direct3D", "Win32_Graphics_Direct3D12", "Win32_Graphics_Dxgi", "Win32_Graphics_Dxgi_Common", "Win32_Security", "Win32_System_Threading", "Win32_System_WindowsProgramming"] }
winit = { version = "=0.28.7", default-features = false, features = ["x11"] }
