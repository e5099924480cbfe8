[package]
name = "postit"
version = "0.1.0"
edition = "2021"
publish = false

[dependencies]
dirs = "*"
iced = { version = "0.14", default-features = false, features = ["svg"] }
iced_layershell = "=0.18.1"
ksni = { version = "0.3", default-features = false, features = ["async-io", "blocking"] }
serde = { version = "1", features = ["derive"] }
serde_json = "1"
wayland-client = "0.31"
wayland-protocols = { version = "0.32", features = ["client", "unstable"] }
wayland-protocols-wlr = { version = "0.3", features = ["client"] }
wayland-scanner = "0.31"
