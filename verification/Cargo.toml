[package]
name = "qwikpage"
version = "0.1.0"
edition = "2021"
publish = false

[dependencies]
anyhow = "=1.0.104"
chrono = "=0.4.45"
dirs = "=5.0.1"
font-kit = "=0.14.3"
handlebars = "6"
libloading = "=0.8.9"
log = "=0.4.35"
once_cell = "=1.21.4"
pinyin = "=0.10.0"
sanitize-filename = "=0.6.0"
serde = { version = "=1.0.229", features = ["derive"] }
serde_json = "=1.0.154"
thiserror = "=2.0.21"
uuid = { version = "=1.29.1", features = ["v4"] }
