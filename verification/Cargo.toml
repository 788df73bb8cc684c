[package]
name = "steam_inhibit"
version = "0.1.0"
edition = "2021"
publish = false

[dependencies]
anyhow = "=1.0.104"
dbus = { version = "=0.9.12", features = ["vendored"] }
inotify = "=0.11.5"
serde = { version = "=1.0.229", features = ["derive"] }
vdf-reader = "=0.3.4"
