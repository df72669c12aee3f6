[package]
name = "kando_cosmic_helper"
version = "0.1.0"
edition = "2021"
publish = false

[dependencies]
cosmic-protocols = { version = "=0.2.0", features = ["client"] }
libc = "=0.2.191"
wayland-client = "=0.31.15"
wayland-protocols = { version = "=0.32.13", features = ["client", "staging", "unstable"] }
wayland-protocols-misc = { version = "=0.3.12", features = ["client"] }
wayland-protocols-wlr = { version = "=0.3.12", features = ["client"] }
xkbcommon = { version = "=0.9.0", features = ["wayland"] }
zbus = "=5.19.0"
