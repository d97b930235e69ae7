[package]
name = "novakeys"
version = "0.1.0"
edition = "2021"
publish = false

[dependencies]
anyhow = "1"
clap = { version = "4", features = ["derive"] }
serde = { version = "1", features = ["derive"] }
serde_json = "1"
toml = "*"
xdg = "*"
tempfile = "3"
rustix = { version = "1", features = ["fs", "net", "event", "process"] }
wayland-client = "0.31"
wayland-protocols-misc = { version = "*", features = ["client"] }
tracing = "0.1"
