[package]
name = "story_text"
version = "0.1.0"
edition = "2021"
publish = false

[dependencies]
dioxus = { version = "0.5", default-features = false, features = ["macro", "html", "signals", "hooks"] }
gloo-timers = { version = "0.3", features = ["futures"] }
kira = "0.9"
rand = "0.8"
tokio = { version = "1", features = ["time"] }
tracing = "0.1"
