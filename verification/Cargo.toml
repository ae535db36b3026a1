[package]
name = "celemod"
version = "0.1.0"
edition = "2021"
publish = false

[dependencies]
anyhow = "1"
game-scanner = "1"
lazy_static = "1"
msgbox = "0.7"
open = "5"
sciter-rs = "0.5"
serde = { version = "1", features = ["derive"] }
serde_json = "1"
serde_yaml = "0.9"
strip_bom = "1"
ureq = { version = "2", features = ["json"] }
winapi = { version = "0.3", features = ["wincon", "winuser"] }
zip = { version = "0.6", default-features = false, features = ["deflate"] }
