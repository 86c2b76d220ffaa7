[package]
name = "taskmanager"
version = "0.1.0"
edition = "2021"
publish = false

[dependencies]
bcrypt = "0.15"
chrono = "0.4"
dioxus = { version = "0.6", features = ["fullstack", "router"] }
gloo-timers = { version = "0.3", features = ["futures"] }
rusqlite = "0.32"
serde = { version = "1", features = ["derive"] }
serde_json = "1"
tokio = { version = "1", features = ["io-util", "macros", "net", "rt-multi-thread", "sync", "time"] }
tracing = "0.1"
tracing-subscriber = "0.3"
web-sys = { version = "0.3", features = ["Storage", "Window"] }
