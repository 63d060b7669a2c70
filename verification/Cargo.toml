[package]
name = "interact"
version = "0.1.0"
edition = "2021"
publish = false

[dependencies]
glam = "*"
winit = { version = "0.30", default-features = false, features = ["rwh_06", "x11"] }
egui = { version = "*", default-features = false, features = ["default_fonts"] }
egui-winit = { version = "*", default-features = false }
libloading = "*"
libc = "*"
env_logger = { version = "*", default-features = false }
blade-render = "*"
blade-asset = "*"
blade-helpers = "*"
blade-engine = "*"
