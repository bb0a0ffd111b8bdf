[package]
name = "ruster"
version = "0.1.0"
edition = "2021"
publish = false

[dependencies]
mlua = { version = "=0.10.5", features = ["lua54", "vendored"] }
dirs = "=7.0.0"
wayland-client = "0.31"
wayland-protocols-wlr = { version = "0.3", features = ["client"] }
memmap2 = "0.9"
