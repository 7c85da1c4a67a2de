[package]
name = "termwin"
version = "0.1.0"
edition = "2021"
publish = false

[dependencies]
freetype-rs = "=0.38.0"
gl = "=0.14.0"
khronos-egl = { version = "=4.1.0", features = ["static"] }
tempfile = "=3.27.0"
wayland-client = { version = "=0.28.6", features = ["dlopen"] }
wayland-egl = "=0.28.6"
wayland-protocols = { version = "=0.28.6", features = ["client"] }
