[package]
name = "hammock"
version = "0.1.0"
edition = "2021"
publish = false

[dependencies]
anyhow = "*"
cgroups-rs = "*"
chrono = "*"
clap = { version = "*", features = ["derive"] }
env_logger = "*"
glob = "*"
log = "*"
nix = { version = "*", features = ["user"] }
parking_lot = "*"
serde = { version = "*", features = ["derive"] }
serde_yaml = "*"
wayland-client = "*"
wayland-protocols-wlr = { version = "*", features = ["client"] }
zbus = "*"
