[package]
name = "aether"
version = "0.1.0"
edition = "2021"
publish = false

[dependencies]
uuid = { version = "=1.29.1", features = ["v4"] }
lru = "=0.19.0"
serde = { version = "=1.0.229", features = ["derive"] }
serde_json = "=1.0.154"
tracing = "=0.1.44"
crossbeam-channel = "=0.5.17"
symphonia = { version = "=0.5.5", features = ["all"] }
rtrb = "=0.4.1"
walkdir = "=2.5.0"
notify = "=8.2.1"
dirs-next = "=2.0.0"
thiserror = "=2.0.21"
async-trait = "=0.1.92"
cpal = "=0.15.3"
rusqlite = { version = "=0.41.1", features = ["bundled"] }
winreg = "*"
windows-sys = { version = "*", features = ["Win32_UI_Shell"] }
