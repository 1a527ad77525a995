[package]
name = "termui"
version = "0.1.0"
edition = "2021"
publish = false

[dependencies]
anyhow = "*"
base64 = "*"
crossterm = "*"
libc = "*"
rustix = { version = "*", features = ["fs", "mm"] }
smithay = { version = "*", default-features = false, features = ["desktop", "wayland_frontend"] }
tracing = "*"
tracing-subscriber = { version = "*", features = ["env-filter", "fmt"] }
wayland-client = "*"
wayland-protocols = { version = "*", features = ["client", "server"] }
wayland-server = "*"
