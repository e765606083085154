[package]
name = "photo_blog"
version = "0.1.0"
edition = "2021"
publish = false

[dependencies]
chrono = "*"
clap = { version = "*", features = ["derive"] }
human_regex = "*"
photon-rs = "*"
stop-words = "*"
tera = "*"
