[package]
name = "lsproxy"
version = "0.1.0"
edition = "2021"
publish = false

[dependencies]
glob = "0.3"
serde_json = "1"
notify-debouncer-mini = "*"
