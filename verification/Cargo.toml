[package]
name = "overlay_select"
version = "0.1.0"
edition = "2021"
publish = false

[dependencies]
image = { version = "=0.24.9", default-features = false }
imageproc = { version = "=0.23.1", default-features = false }
winit = { version = "=0.29.15", default-features = false, features = ["rwh_06", "x11"] }
softbuffer = { version = "=0.4.8", default-features = false, features = ["x11", "x11-dlopen"] }
rusty-tesseract = "=1.1.10"
clipboard-win = "=5.4.3"
