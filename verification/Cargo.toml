[package]
name = "dsh_shell"
version = "0.1.0"
edition = "2021"
publish = false

[dependencies]
serde = { version = "=1.0.229", features = ["derive"] }
serde_json = "=1.0.154"
serde_norway = "=0.9.42"
global-hotkey = "=0.9.0"
muda = { version = "=0.21.2", default-features = false }
tray-icon = { version = "=0.26.1", default-features = false, features = ["ksni"] }
tao = "=0.37.2"
wry = "=0.57.1"
notify = "=8.2.1"
notify-rust = "=4.18.2"
tokio = { version = "=1.54.1", features = ["rt-multi-thread", "process", "io-util", "time", "macros"] }
tracing = "=0.1.44"
tracing-subscriber = { version = "=0.3.23", features = ["env-filter"] }
