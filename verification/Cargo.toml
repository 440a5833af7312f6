[package]
name = "notes"
version = "0.1.0"
edition = "2021"
publish = false

[dependencies]
anyhow = "*"
axum = "*"
axum-extra = { version = "*", features = ["async-read-body"] }
crossbeam-channel = "*"
mime_guess = "*"
minijinja = "*"
notify = "*"
pulldown-cmark = { version = "*", default-features = false, features = ["html"] }
tokio = { version = "*", features = ["full"] }
tokio-stream = { version = "*", features = ["sync"] }
walkdir = "*"
