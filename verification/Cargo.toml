[package]
name = "xremap"
version = "0.1.0"
edition = "2021"
publish = false

[dependencies]
anyhow = "1"
clap = { version = "3.2", features = ["derive"] }
clap_complete = "3.2"
daemonize = "*"
env_logger = "0.10"
evdev = "0.12"
hyprland = "*"
nix = "0.26"
serde = { version = "1", features = ["derive"] }
serde_json = "1"
serde_yaml = "0.9"
