[package]
name = "mew_desktop"
version = "0.1.0"
edition = "2021"
publish = false

[dependencies]
unicode-segmentation = "*"
serde_json = "*"
mdstream = "*"
ratatui = "*"
anyhow = "*"
raw-window-handle = "*"
futures = "*"
oneshot = "*"
tracing = "*"
