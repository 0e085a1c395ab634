[package]
name = "tabby_tui"
version = "0.1.0"
edition = "2021"
publish = false

[dependencies]
futures = "=0.3.34"
nvml-wrapper = "0.10"
reqwest = { version = "=0.11.27", default-features = false, features = ["json", "stream"] }
serde = { version = "=1.0.229", features = ["derive"] }
serde_json = "=1.0.151"
sysinfo = "0.29"
tokio = { version = "=1.53.2", features = ["rt-multi-thread", "macros", "sync", "time"] }
uuid = { version = "=1.27.0", features = ["v4"] }
