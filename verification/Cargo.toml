[package]
name = "boinc"
version = "0.4.1"
edition = "2021"
publish = false

[dependencies]
pulldown-cmark = { version = "*", default-features = false, features = ["html"] }
vtracer = "0.6"
image = "0.25"
pdf-extract = "*"
serde = { version = "1", features = ["derive"] }
serde_json = "1"
tempfile = "3"
interprocess = "2"
directories = "*"
crossbeam-channel = "0.5"
notify-rust = "4"
thiserror = "*"
