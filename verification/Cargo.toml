[package]
name = "simu"
version = "0.1.0"
edition = "2021"
publish = false

[dependencies]
actix-web = { version = "4", default-features = false, features = ["macros"] }
actix-web-httpauth = "0.8"
bincode = "1.3"
bytes = "1"
handlebars = { version = "4", features = ["dir_source"] }
lazy_static = "1"
libc = "0.2"
pam = "0.7"
serde = { version = "1", features = ["derive"] }
tokio = { version = "1", features = ["rt", "sync"] }
tokio-stream = "0.1"
tracing = "0.1"
tracing-subscriber = "0.3"
