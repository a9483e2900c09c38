[package]
name = "keet"
version = "0.1.0"
edition = "2021"
publish = false

[dependencies]
audioadapter-buffers = "*"
cpal = "*"
crossterm = "*"
icy_sixel = "*"
image = { version = "0.25", default-features = false, features = ["jpeg", "png", "webp"] }
rtrb = "0.3"
rubato = "*"
serde = { version = "1", features = ["derive"] }
serde_json = "1"
souvlaki = "*"
symphonia = { version = "*", features = ["all"] }
unicode-width = "0.2"
ureq = { version = "3", features = ["native-tls"] }
