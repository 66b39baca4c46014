[package]
name = "saola-session"
version = "0.1.0"
edition = "2021"
publish = false

[dependencies]
toml = "*"
tokio = { version = "1", features = ["rt-multi-thread", "macros", "signal", "time", "sync", "process"] }
tracing = "0.1"
tracing-subscriber = { version = "0.3", features = ["env-filter"] }
wayland-client = "0.31"
wayland-protocols = { version = "0.32", features = ["staging", "client"] }
zbus = { version = "5", default-features = false, features = ["tokio"] }
