[package]
name = "gpotlight"
version = "0.1.0"
edition = "2021"
publish = false

[dependencies]
indexmap = { version = "2", features = ["serde"] }
pinyin = "*"
toml = "*"
serde = { version = "1", features = ["derive"] }
serde_json = "1"
dirs = "*"
anyhow = "1"
tracing = "*"
tracing-subscriber = { version = "*", features = ["env-filter"] }
open = "*"
glib = "*"
gio = "*"
gtk4 = { version = "*", features = ["v4_12"] }
libadwaita = { version = "*", features = ["v1_4"] }
ksni = { version = "*", features = ["blocking"] }
