[package]
name = "one_click_launch"
version = "0.1.0"
edition = "2021"
publish = false

[dependencies]
rand = "0.8"
serde_json = "1"
url = "2"
serde = { version = "1", features = ["derive"] }
anyhow = "1"
thiserror = "1"
tokio = { version = "1", features = ["rt-multi-thread", "macros", "sync"] }
tracing = "0.1"
tracing-subscriber = "0.3"
sqlx = { version = "0.8", default-features = false, features = ["sqlite", "runtime-tokio"] }
dirs = "*"
lnk = "*"
log = "0.4"
lazy_static = "1"
windows = { version = "*", features = ["Win32_Foundation", "Win32_System_Com", "Win32_UI_Shell", "Win32_UI_WindowsAndMessaging"] }
