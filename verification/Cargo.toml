[package]
name = "html_exporter"
version = "0.1.0"
edition = "2021"
publish = false

[dependencies]
imessage-database = "=0.1.0"
plist = "=1.10.3"
rusqlite = { version = "=0.28.0", features = ["blob"] }
uuid = { version = "=1.29.0", features = ["v4"] }
