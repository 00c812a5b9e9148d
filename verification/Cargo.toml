[package]
name = "astra_core"
version = "0.1.0"
edition = "2021"
publish = false

[dependencies]
tokio = { version = "=1.54.1", features = ["rt-multi-thread", "macros", "sync", "time", "signal"] }
rand = "=0.8.8"
anyhow = "=1.0.104"
tracing = "=0.1.44"
tracing-subscriber = "=0.3.23"
device_query = "=4.0.1"
windows = { version = "=0.48.0", features = ["Win32_Foundation", "Win32_UI_WindowsAndMessaging"] }
