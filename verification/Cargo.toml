[package]
name = "music_manager"
version = "0.1.0"
edition = "2021"
publish = false

[dependencies]
regex = "=1.13.1"
unaccent = "=0.1.1"
rand = "=0.9.5"
sha2 = "=0.10.9"
base64 = "=0.22.1"
urlencoding = "=2.1.3"
url = "=2.5.8"
uuid = "=1.29.0"
camino = "=1.2.6"
chrono = "=0.4.45"
serde = { version = "=1.0.229", features = ["derive"] }
serde-xml-rs = "=0.8.2"
html_parser = "=0.7.0"
tokio = { version = "=1.54.1", features = ["time", "rt", "sync", "macros", "rt-multi-thread"] }
reqwest = { version = "=0.13.5", default-features = false, features = ["json"] }
thiserror = "=2.0.21"
color-eyre = "=0.6.5"
futures = "=0.3.34"
tracing = "=0.1.44"
log = "=0.4.35"
crossterm = "=0.29.0"
ratatui = "=0.30.2"
governor = "*"
