[package]
name = "moon_cache"
version = "0.1.0"
edition = "2021"
publish = false

[dependencies]
fs-err = "*"
serde = { version = "1", features = ["derive"] }
serde_json = "1"
figment = { version = "0.10", features = ["yaml"] }
assert_cmd = "2"
assert_fs = "1"

[dev-dependencies]
tempfile = "3"
filetime = "0.2"
