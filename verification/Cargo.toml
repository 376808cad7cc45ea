[package]
name = "clipway"
version = "0.1.0"
edition = "2021"
publish = false

[dependencies]
sha2 = "0.10"
anyhow = "1"
dirs = "*"
fs2 = "0.4"
libc = "0.2"
rusqlite = { version = "*", features = ["bundled"] }
gtk4 = "*"
libadwaita = "*"
gtk4-layer-shell = "*"
ksni = { version = "0.3", features = ["blocking"] }
