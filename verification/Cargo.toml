[package]
name = "melies"
version = "0.1.0"
edition = "2021"
publish = false

[dependencies]
chrono = "0.4"
opener = "*"
regex = "1"
sanitize-filename = "*"
serde = { version = "1", features = ["derive"] }
serde_json = "1"
sysinfo = "*"
trash = "*"
vdm = "*"
