[package]
name = "clipferry"
version = "0.0.2"
edition = "2021"
publish = false

[dependencies]
anyhow = "1"
calloop = "0.14"
calloop-wayland-source = "0.4"
landlock = "0.4"
lexopt = "0.3"
log = { version = "0.4", features = ["std"] }
rustix = { version = "1", features = ["process", "mm", "fs", "stdio"] }
wayland-client = "0.31"
wayland-protocols = { version = "0.32", features = ["client", "staging"] }
wayland-protocols-wlr = { version = "0.3", features = ["client"] }
x11rb = { version = "0.13", features = ["xfixes"] }
zeroize = "1"
