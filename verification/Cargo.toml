[package]
name = "navgator"
version = "0.1.0"
edition = "2021"
publish = false

[dependencies]
adblock = "0.12"
egui = "=0.37.0"
fluent = "=0.17.0"
fluent-bundle = "=0.16.0"
http = "1"
intl-memoizer = "=0.5.3"
keyring = "=3.6.3"
png = "=0.18.1"
rusqlite = { version = "=0.41.1", features = ["bundled"] }
serde = { version = "=1.0.229", features = ["derive"] }
serde_json = "=1.0.154"
sys-locale = "=0.3.2"
unic-langid = "=0.9.6"
ureq = "=2.12.1"
url = "=2.5.8"
winit = "=0.30.13"
