[package]
name = "daily_folder"
version = "0.1.0"
edition = "2021"
publish = false

[dependencies]
chrono = "=0.4.45"
clap = { version = "=4.6.7", features = ["derive", "env"] }
color-eyre = "=0.6.5"
dotenvy = "=0.15.7"
serde = { version = "=1.0.229", features = ["derive"] }
serde_json = "=1.0.154"
thiserror = "=2.0.21"
tokio = { version = "=1.54.1", features = ["rt", "macros", "time", "sync"] }
toml = "=0.8.23"
toml_edit = "=0.22.27"
tracing = "=0.1.44"
tracing-appender = "=0.2.5"
tracing-subscriber = { version = "=0.3.23", features = ["env-filter", "chrono"] }
tray-icon = "=0.26.1"
windows = { version = "=0.58.0", features = ["Win32_Foundation", "Win32_UI_Shell", "Win32_UI_WindowsAndMessaging", "Win32_System_Console"] }
