[package]
name = "courier"
version = "0.1.0"
edition = "2021"
publish = false

[dependencies]
h2 = "0.4"
h3 = "*"
http = "1"
log = "0.4"
pin-project-lite = "0.2"
tokio = { version = "1", features = ["rt", "time"] }
tower = { version = "0.5", features = ["retry", "util"] }
url = "2"
