[package]
name = "ssg"
version = "0.1.0"
edition = "2021"
publish = false

[dependencies]
regex = "=1.13.1"
comrak = { version = "=0.44.0", default-features = false, features = ["syntect"] }
serde = { version = "=1.0.229", features = ["derive"] }
serde_yaml = "=0.9.34"
serde_json = "=1.0.154"
tera = "=1.20.1"
walkdir = "=2.5.0"
clap = "=4.6.7"
