[package]
name = "libdae"
version = "0.1.0"
edition = "2021"
publish = false

[dependencies]
evdev = "0.13"
nix = { version = "0.29", features = ["socket", "poll", "time", "user", "uio", "fs"] }
postcard = { version = "1", features = ["use-std"] }
serde = { version = "1", features = ["derive"] }
crossbeam-channel = "0.5"
rayon = "1"
smithay-client-toolkit = { version = "*", default-features = false, features = ["calloop"] }
wayland-client = "*"
wayland-protocols-wlr = { version = "*", features = ["client"] }
