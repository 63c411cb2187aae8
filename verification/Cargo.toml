[package]
name = "yayd"
version = "0.1.0"
edition = "2021"
publish = false

[dependencies]
sha2 = "*"
json = "*"
mysql = { version = "*", default-features = false, features = ["minimal-rust"] }
reqwest = { version = "*", default-features = false, features = ["blocking"] }
toml = "*"
serde = { version = "*", features = ["derive"] }
serde_json = "*"
log = "*"
log4rs = "*"
chrono = "*"
timer = "*"
zip = { version = "*", default-features = false, features = ["deflate"] }
color-eyre = "*"
lazy_static = "*"
