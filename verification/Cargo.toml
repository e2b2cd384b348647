[package]
name = "sirius"
version = "0.1.0"
edition = "2021"
publish = false

[dependencies]
gettext-rs = { version = "=0.8.0", features = ["gettext-system"] }
uuid = { version = "=1.29.0", features = ["v4"] }
sysinfo = "=0.40.1"
serde = { version = "=1.0.229", features = ["derive"] }
serde_json = "=1.0.154"
toml = "=1.1.8"
clap = { version = "=4.6.7", features = ["derive"] }
tracing = "=0.1.44"
tracing-subscriber = "=0.3.23"
zbus = { version = "=5.19.0", features = ["blocking-api"] }
zvariant = "=5.15.1"
libc = "=0.2.191"
